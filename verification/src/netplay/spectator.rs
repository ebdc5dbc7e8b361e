//! A spectator or replay session: consumes a log of input pairs and says what the emulator is
//! to do, without input of its own.
//!
//! The log is kept whole.  Going back restores the nearest earlier checkpoint (or the boot
//! state) and runs forward from there without showing the frames in between.

use crate::bytes::{copied, from_le32};
use crate::io::{combine_peers, packed, peers_combined, unpacked, InputState, PackedInput};
use crate::netplay::session::error_text;
use crate::text::{decimal, push_decimal};
use vstd::prelude::*;

verus! {

/// Frames between checkpoints: about three seconds.
pub const SPECTATOR_CHECKPOINT_INTERVAL: usize = 180;

/// Most frames of one slice of a seek with a time budget.
pub const TIMED_SLICE: usize = 12;

/// Progress of a seek.
#[allow(inconsistent_fields)]
#[derive(Debug, Clone, Copy, PartialEq, Eq, Structural)]
pub enum SeekProgress {
    /// Call again at the next tick.
    InProgress { cursor: usize, target: usize },
    /// The target frame is shown; `cursor` is the new position.
    Done { cursor: i32 },
    /// The log is empty or no state could be restored.
    Failed,
}

/// What a seek asks for next.
#[derive(Debug, Clone, Copy, PartialEq, Eq, Structural)]
pub enum SeekAction {
    /// Restore one of [`OnlineSpectatorSession::anchors`] for `max_cursor`, report it with
    /// [`OnlineSpectatorSession::anchor_restored`], and let the host show something.
    Restore { max_cursor: usize, target: usize },
    /// Run a frame with this input without showing it.
    Headless(InputState),
    /// Run and show a frame with this input; the seek is then done.
    Visible(InputState),
    /// Nothing to run in this slice.
    Report(SeekProgress),
}

/// A saved state after some frames.
pub struct Checkpoint {
    pub cursor: usize,
    pub bytes: Vec<u8>,
}

/// A spectator session.
pub struct OnlineSpectatorSession {
    pub log: Vec<(PackedInput, PackedInput)>,
    /// Frames consumed.
    pub cursor: usize,
    /// Inputs of the frame that was run last.
    pub last_inputs: (PackedInput, PackedInput),
    /// State at frame 0.
    pub boot_state: Vec<u8>,
    /// Checkpoints, by ascending cursor.
    pub checkpoints: Vec<Checkpoint>,
    /// Match frame at which the session was seeded.
    pub base_frame: usize,
    /// The cursor, for readers.
    pub current_frame: i32,
    pub error: Option<String>,
    pub frames_since_running: u32,
    /// Frames run since one was shown.
    pub headless_since_visible: u32,
    pub total_advance_calls: u64,
}

/// What an [`OnlineSpectatorSession`] holds.
#[verifier::ext_equal]
pub struct SpectatorView {
    pub log: Seq<(u32, u32)>,
    pub cursor: int,
    pub last_inputs: (u32, u32),
    pub boot_state: Seq<u8>,
    pub checkpoints: Seq<(int, Seq<u8>)>,
    pub base_frame: int,
    pub current_frame: i32,
    pub error: Option<Seq<char>>,
    pub frames_since_running: u32,
    pub headless_since_visible: u32,
    pub total_advance_calls: u64,
}

/// The checkpoints as cursors and states.
pub open spec fn checkpoints_of(c: Seq<Checkpoint>) -> Seq<(int, Seq<u8>)> {
    Seq::new(c.len(), |i: int| (c[i].cursor as int, c[i].bytes@))
}

impl View for OnlineSpectatorSession {
    type V = SpectatorView;

    open spec fn view(&self) -> SpectatorView {
        SpectatorView {
            log: self.log@,
            cursor: self.cursor as int,
            last_inputs: self.last_inputs,
            boot_state: self.boot_state@,
            checkpoints: checkpoints_of(self.checkpoints@),
            base_frame: self.base_frame as int,
            current_frame: self.current_frame,
            error: error_text(self.error),
            frames_since_running: self.frames_since_running,
            headless_since_visible: self.headless_since_visible,
            total_advance_calls: self.total_advance_calls,
        }
    }
}

/// One more, up to the limit of the type.
pub open spec fn counted(n: u32) -> u32 {
    if n < u32::MAX { (n + 1) as u32 } else { n }
}

/// Checkpoints have ascending cursors.
pub open spec fn in_order(c: Seq<(int, Seq<u8>)>) -> bool {
    forall|i: int, j: int| 0 <= i < j < c.len() ==> (#[trigger] c[i]).0 < (#[trigger] c[j]).0
}

/// Checkpoints stand at multiples of the interval, none at the start.
pub open spec fn at_intervals(c: Seq<(int, Seq<u8>)>) -> bool {
    forall|i: int|
        0 <= i < c.len() ==> (#[trigger] c[i]).0 > 0 && c[i].0 % (SPECTATOR_CHECKPOINT_INTERVAL as int) == 0
}

/// Number of checkpoints up to a cursor.
pub open spec fn count_up_to(c: Seq<(int, Seq<u8>)>, max_cursor: int) -> nat
    decreases c.len(),
{
    if c.len() == 0 || c[0].0 > max_cursor { 0 } else { 1 + count_up_to(c.skip(1), max_cursor) }
}

/// The input pair at the start of some bytes.
pub open spec fn first_pair(b: Seq<u8>) -> (u32, u32) {
    (from_le32(b[0], b[1], b[2], b[3]), from_le32(b[4], b[5], b[6], b[7]))
}

/// Input pairs of a payload: eight bytes each, little-endian; what is left over is ignored.
pub open spec fn pairs_in(payload: Seq<u8>) -> Seq<(u32, u32)> {
    Seq::new(payload.len() / 8, |i: int| first_pair(payload.subrange(8 * i, 8 * i + 8)))
}

/// The input of a pair of peers.
pub open spec fn pair_input(p: (u32, u32)) -> InputState {
    peers_combined(unpacked(p.0), unpacked(p.1))
}

impl SpectatorView {
    /// A session that starts at a state.
    pub open spec fn started(boot_state: Seq<u8>) -> SpectatorView {
        SpectatorView {
            log: Seq::empty(),
            cursor: 0,
            last_inputs: (0, 0),
            boot_state,
            checkpoints: Seq::empty(),
            base_frame: 0,
            current_frame: 0,
            error: None,
            frames_since_running: 0,
            headless_since_visible: 0,
            total_advance_calls: 0,
        }
    }

    /// The cursor lies in the log; the checkpoints are in order, at whole intervals.
    pub open spec fn wf(self) -> bool {
        &&& 0 <= self.cursor <= self.log.len()
        &&& in_order(self.checkpoints)
        &&& at_intervals(self.checkpoints)
    }

    /// Cursor of the nearest checkpoint at or before `max_cursor`.
    pub open spec fn best_checkpoint(self, max_cursor: int) -> Option<int> {
        let n = count_up_to(self.checkpoints, max_cursor) as int;
        if n > 0 { Some(self.checkpoints[n - 1].0) } else { None }
    }

    /// After a frame that is not shown.
    pub open spec fn ran_headless(self) -> SpectatorView {
        SpectatorView {
            last_inputs: self.log[self.cursor],
            headless_since_visible: counted(self.headless_since_visible),
            cursor: self.cursor + 1,
            current_frame: (self.cursor + 1) as i32,
            ..self
        }
    }

    /// After a frame that is shown.
    pub open spec fn ran_visible(self) -> SpectatorView {
        SpectatorView {
            last_inputs: self.log[self.cursor],
            headless_since_visible: 0,
            cursor: self.cursor + 1,
            current_frame: (self.cursor + 1) as i32,
            frames_since_running: counted(self.frames_since_running),
            ..self
        }
    }

    /// After `n` frames that are not shown.
    pub open spec fn ran_headless_n(self, n: int) -> SpectatorView
        decreases n,
    {
        if n <= 0 { self } else { self.ran_headless_n(n - 1).ran_headless() }
    }

    /// The checkpoint that a rewind to `max_cursor` starts from; the boot state where there is
    /// none.
    pub open spec fn anchor(self, max_cursor: int) -> (int, Seq<u8>) {
        let n = count_up_to(self.checkpoints, max_cursor) as int;
        if n > 0 { self.checkpoints[n - 1] } else { (0, self.boot_state) }
    }

    /// A checkpoint is due: at a multiple of the interval where none is stored.
    pub open spec fn checkpoint_due(self) -> bool {
        &&& self.cursor != 0
        &&& self.cursor % (SPECTATOR_CHECKPOINT_INTERVAL as int) == 0
        &&& forall|i: int| 0 <= i < self.checkpoints.len() ==> (#[trigger] self.checkpoints[i]).0 != self.cursor
    }

    /// The frame that a seek lands on, within the log.
    pub open spec fn seek_target(self, target: i32) -> int {
        if target < 1 {
            1
        } else if target <= self.log.len() {
            target as int
        } else {
            self.log.len() as int
        }
    }

    /// What a seek does next, `steps` frames into a slice of at most `cap`.
    pub open spec fn seek_action(self, target: i32, steps: int, cap: int, out_of_time: bool) -> SeekAction {
        let t = self.seek_target(target);
        if self.log.len() == 0 {
            SeekAction::Report(SeekProgress::Failed)
        } else if self.cursor == t {
            SeekAction::Report(SeekProgress::Done { cursor: self.current_frame })
        } else if self.cursor > t - 1 {
            SeekAction::Restore { max_cursor: (t - 1) as usize, target: t as usize }
        } else if self.cursor == t - 1 {
            SeekAction::Visible(pair_input(self.log[self.cursor]))
        } else if steps < cap && !out_of_time {
            SeekAction::Headless(pair_input(self.log[self.cursor]))
        } else {
            SeekAction::Report(
                SeekProgress::InProgress { cursor: self.cursor as usize, target: t as usize },
            )
        }
    }

    /// After that action.
    pub open spec fn after_action(self, a: SeekAction) -> SpectatorView {
        match a {
            SeekAction::Headless(i) => self.ran_headless(),
            SeekAction::Visible(i) => self.ran_visible(),
            _ => self,
        }
    }

    /// The status line.
    pub open spec fn status_text(self) -> Seq<char> {
        let buffered = self.log.len() - self.cursor;
        if buffered <= 0 {
            "WAITING FOR INPUTS…"@
        } else if buffered > 60 {
            "CATCHING UP  ("@ + decimal(buffered as nat) + " behind)"@
        } else {
            "SPECTATING  ("@ + decimal(buffered as nat) + " buffered)"@
        }
    }
}

/// Frames of a slice: with a time budget no more than a few, so that the host stays responsive.
pub fn step_cap(max_steps: usize, timed: bool) -> (r: usize)
    ensures
        r == (if timed && max_steps > TIMED_SLICE { TIMED_SLICE } else { max_steps }),
{
    if timed && max_steps > TIMED_SLICE { TIMED_SLICE } else { max_steps }
}

proof fn count_up_to_bound(c: Seq<(int, Seq<u8>)>, max_cursor: int)
    requires
        in_order(c),
    ensures
        count_up_to(c, max_cursor) <= c.len(),
        forall|i: int| 0 <= i < count_up_to(c, max_cursor) ==> (#[trigger] c[i]).0 <= max_cursor,
        forall|i: int| count_up_to(c, max_cursor) <= i < c.len() ==> (#[trigger] c[i]).0 > max_cursor,
    decreases c.len(),
{
    if c.len() > 0 && c[0].0 <= max_cursor {
        let t = c.skip(1);
        assert forall|i: int, j: int| 0 <= i < j < t.len() implies (#[trigger] t[i]).0 < (#[trigger] t[j]).0 by {
            assert(t[i] == c[i + 1] && t[j] == c[j + 1]);
        }
        count_up_to_bound(t, max_cursor);
        assert forall|i: int| 0 <= i < count_up_to(c, max_cursor) implies (#[trigger] c[i]).0 <= max_cursor by {
            if i > 0 {
                assert(t[i - 1] == c[i]);
            }
        }
        assert forall|i: int| count_up_to(c, max_cursor) <= i < c.len() implies (#[trigger] c[i]).0
            > max_cursor by {
            assert(t[i - 1] == c[i]);
        }
    }
}

/// Input pairs of a payload.
fn decode_input_pairs(data: &[u8]) -> (r: Vec<(PackedInput, PackedInput)>)
    ensures
        r@ == pairs_in(data@),
{
    let mut r: Vec<(PackedInput, PackedInput)> = Vec::new();
    let total: usize = data.len();
    let n: usize = total / 8;
    let mut i: usize = 0;
    while i < n
        invariant
            i <= n,
            n == total / 8,
            total == data@.len(),
            r@ == pairs_in(data@).take(i as int),
        decreases n - i,
    {
        let at: usize = i * 8;
        let p0: u32 = (data[at] as u32) | ((data[at + 1] as u32) << 8) | ((data[at + 2] as u32) << 16) | ((
        data[at + 3] as u32) << 24);
        let p1: u32 = (data[at + 4] as u32) | ((data[at + 5] as u32) << 8) | ((data[at + 6] as u32) << 16) | ((
        data[at + 7] as u32) << 24);
        r.push((p0, p1));
        assert(pairs_in(data@)[i as int] == (p0, p1));
        assert(r@ =~= pairs_in(data@).take(i + 1));
        i = i + 1;
    }
    assert(pairs_in(data@).take(n as int) =~= pairs_in(data@));
    r
}

impl OnlineSpectatorSession {
    /// A session that starts at a state.
    pub fn new(boot_state: Vec<u8>) -> (r: Self)
        ensures
            r@ == SpectatorView::started(boot_state@),
            r@.wf(),
    {
        let r = OnlineSpectatorSession {
            log: Vec::new(),
            cursor: 0,
            last_inputs: (0, 0),
            boot_state,
            checkpoints: Vec::new(),
            base_frame: 0,
            current_frame: 0,
            error: None,
            frames_since_running: 0,
            headless_since_visible: 0,
            total_advance_calls: 0,
        };
        assert(r@ =~= SpectatorView::started(boot_state@));
        r
    }

    fn append_pairs(&mut self, payload: &[u8])
        ensures
            final(self)@ == (SpectatorView { log: old(self)@.log + pairs_in(payload@), ..old(self)@ }),
    {
        let mut pairs = decode_input_pairs(payload);
        self.log.append(&mut pairs);
    }

    /// Append live frames.  Bytes after the last complete pair are ignored, so that a partial
    /// wire frame never shifts the log.
    pub fn push_inputs(&mut self, payload: &[u8])
        ensures
            final(self)@ == (SpectatorView { log: old(self)@.log + pairs_in(payload@), ..old(self)@ }),
            old(self)@.wf() ==> final(self)@.wf(),
    {
        self.append_pairs(payload);
    }

    /// Append the frames of a catch-up payload, in the same form.
    pub fn push_catchup(&mut self, payload: &[u8])
        ensures
            final(self)@ == (SpectatorView { log: old(self)@.log + pairs_in(payload@), ..old(self)@ }),
            old(self)@.wf() ==> final(self)@.wf(),
    {
        if payload.len() < 8 {
            assert(pairs_in(payload@) =~= Seq::empty());
            assert(self@.log + pairs_in(payload@) =~= self@.log);
            return;
        }
        self.append_pairs(payload);
    }

    /// Frames that wait to be run.
    pub fn buffered_frames(&self) -> (r: usize)
        ensures
            r == (if self@.cursor <= self@.log.len() { self@.log.len() - self@.cursor } else { 0 }),
    {
        if self.cursor <= self.log.len() { self.log.len() - self.cursor } else { 0 }
    }

    /// Frames in the log.
    pub fn total_frames(&self) -> (r: usize)
        ensures
            r == self@.log.len(),
    {
        self.log.len()
    }

    /// The match frame that playback has reached.
    pub fn current_frame(&self) -> (r: usize)
        requires
            self@.base_frame + self@.cursor <= usize::MAX,
        ensures
            r == self@.base_frame + self@.cursor,
    {
        self.base_frame + self.cursor
    }

    /// Start anew from a state of match frame `frame` that the host provides; `loaded` says
    /// whether the emulator took it.  The log and the checkpoints belong to the old origin and
    /// are dropped.  Nothing changes where it was not taken.
    pub fn seed_from_checkpoint(&mut self, loaded: bool, frame: usize, bytes: &[u8]) -> (r: bool)
        ensures
            r == loaded,
            final(self)@ == (if loaded {
                SpectatorView {
                    boot_state: bytes@,
                    log: Seq::empty(),
                    checkpoints: Seq::empty(),
                    cursor: 0,
                    current_frame: 0,
                    base_frame: frame as int,
                    ..old(self)@
                }
            } else {
                old(self)@
            }),
            old(self)@.wf() ==> final(self)@.wf(),
    {
        if !loaded {
            return false;
        }
        self.boot_state = copied(bytes);
        self.log = Vec::new();
        self.checkpoints = Vec::new();
        self.cursor = 0;
        self.current_frame = 0;
        self.base_frame = frame;
        assert(self@.checkpoints =~= Seq::empty());
        true
    }

    /// Inputs of the frame that was run last.
    pub fn last_inputs(&self) -> (r: (PackedInput, PackedInput))
        ensures
            r == self@.last_inputs,
    {
        self.last_inputs
    }

    fn run_headless(&mut self) -> (r: InputState)
        requires
            old(self)@.wf(),
            old(self)@.cursor < old(self)@.log.len(),
        ensures
            r == pair_input(old(self)@.log[old(self)@.cursor]),
            final(self)@ == old(self)@.ran_headless(),
            final(self)@.wf(),
    {
        let total: usize = self.log.len();
        assert(self.cursor < total);
        let pair = self.log[self.cursor];
        self.last_inputs = pair;
        if self.headless_since_visible < u32::MAX {
            self.headless_since_visible = self.headless_since_visible + 1;
        }
        self.cursor = self.cursor + 1;
        self.current_frame = self.cursor as i32;
        combine_peers(pair.0, pair.1)
    }

    fn run_visible(&mut self) -> (r: InputState)
        requires
            old(self)@.wf(),
            old(self)@.cursor < old(self)@.log.len(),
        ensures
            r == pair_input(old(self)@.log[old(self)@.cursor]),
            final(self)@ == old(self)@.ran_visible(),
            final(self)@.wf(),
    {
        let total: usize = self.log.len();
        assert(self.cursor < total);
        let pair = self.log[self.cursor];
        self.last_inputs = pair;
        self.headless_since_visible = 0;
        self.cursor = self.cursor + 1;
        self.current_frame = self.cursor as i32;
        if self.frames_since_running < u32::MAX {
            self.frames_since_running = self.frames_since_running + 1;
        }
        combine_peers(pair.0, pair.1)
    }

    /// Take up to `max_frames` buffered frames to be run without being shown; their inputs are
    /// returned in order.
    pub fn catch_up_batch(&mut self, max_frames: usize) -> (r: Vec<InputState>)
        requires
            old(self)@.wf(),
        ensures
            r@.len() == (if max_frames <= old(self)@.log.len() - old(self)@.cursor {
                max_frames as int
            } else {
                old(self)@.log.len() - old(self)@.cursor
            }),
            forall|i: int|
                0 <= i < r@.len() ==> #[trigger] r@[i] == pair_input(old(self)@.log[old(self)@.cursor + i]),
            final(self)@ == old(self)@.ran_headless_n(r@.len() as int),
            final(self)@.wf(),
    {
        let mut out: Vec<InputState> = Vec::new();
        while self.cursor < self.log.len() && out.len() < max_frames
            invariant
                self@.wf(),
                out@.len() <= max_frames,
                self@ == old(self)@.ran_headless_n(out@.len() as int),
                self@.log == old(self)@.log,
                self@.cursor == old(self)@.cursor + out@.len(),
                forall|i: int|
                    0 <= i < out@.len() ==> #[trigger] out@[i] == pair_input(
                        old(self)@.log[old(self)@.cursor + i],
                    ),
            decreases max_frames - out@.len(),
        {
            let input = self.run_headless();
            out.push(input);
        }
        out
    }

    /// The next step of a seek to frame `target` (from 1), `steps` frames into a slice of at most
    /// `cap`.  Going back asks for a restore first; frames before the target are not shown.
    pub fn seek_progress(&mut self, target: i32, steps: usize, cap: usize, out_of_time: bool) -> (r: SeekAction)
        requires
            old(self)@.wf(),
            old(self)@.log.len() <= i32::MAX,
        ensures
            r == old(self)@.seek_action(target, steps as int, cap as int, out_of_time),
            final(self)@ == old(self)@.after_action(r),
            final(self)@.wf(),
    {
        let len: usize = self.log.len();
        if len == 0 {
            return SeekAction::Report(SeekProgress::Failed);
        }
        let t: usize = if target < 1 {
            1
        } else if (target as usize) <= len {
            target as usize
        } else {
            len
        };
        if self.cursor == t {
            return SeekAction::Report(SeekProgress::Done { cursor: self.current_frame });
        }
        let before: usize = t - 1;
        if self.cursor > before {
            return SeekAction::Restore { max_cursor: before, target: t };
        }
        if self.cursor == before {
            return SeekAction::Visible(self.run_visible());
        }
        if steps < cap && !out_of_time {
            return SeekAction::Headless(self.run_headless());
        }
        SeekAction::Report(SeekProgress::InProgress { cursor: self.cursor, target: t })
    }

    fn count_checkpoints(&self, max_cursor: usize) -> (r: usize)
        requires
            self@.wf(),
        ensures
            r == count_up_to(self@.checkpoints, max_cursor as int),
            r <= self.checkpoints@.len(),
    {
        let ghost all = self@.checkpoints;
        proof {
            count_up_to_bound(all, max_cursor as int);
        }
        let mut n: usize = 0;
        while n < self.checkpoints.len() && self.checkpoints[n].cursor <= max_cursor
            invariant
                n <= self.checkpoints@.len(),
                all == self@.checkpoints,
                forall|i: int| 0 <= i < n ==> (#[trigger] all[i]).0 <= max_cursor,
            decreases self.checkpoints@.len() - n,
        {
            assert(all[n as int].0 == self.checkpoints@[n as int].cursor);
            n = n + 1;
        }
        proof {
            let e = count_up_to(all, max_cursor as int) as int;
            if e < n {
                assert(all[e].0 <= max_cursor);
            } else if e > n {
                assert(all[n as int].0 <= max_cursor);
                assert(all[n as int].0 == self.checkpoints@[n as int].cursor);
            }
        }
        n
    }

    /// The states that a rewind to `max_cursor` tries, in order: the nearest checkpoint at or
    /// before it, then the boot state.
    pub fn anchors(&self, max_cursor: usize) -> (r: Vec<Checkpoint>)
        requires
            self@.wf(),
        ensures
            checkpoints_of(r@) == (if self@.anchor(max_cursor as int).0 != 0 {
                seq![self@.anchor(max_cursor as int), (0int, self@.boot_state)]
            } else {
                seq![self@.anchor(max_cursor as int)]
            }),
    {
        let n: usize = self.count_checkpoints(max_cursor);
        let mut out: Vec<Checkpoint> = Vec::new();
        if n > 0 {
            let c = &self.checkpoints[n - 1];
            out.push(Checkpoint { cursor: c.cursor, bytes: copied(c.bytes.as_slice()) });
            if c.cursor != 0 {
                out.push(Checkpoint { cursor: 0, bytes: copied(self.boot_state.as_slice()) });
            }
        } else {
            out.push(Checkpoint { cursor: 0, bytes: copied(self.boot_state.as_slice()) });
        }
        assert(checkpoints_of(out@) =~= (if self@.anchor(max_cursor as int).0 != 0 {
            seq![self@.anchor(max_cursor as int), (0int, self@.boot_state)]
        } else {
            seq![self@.anchor(max_cursor as int)]
        }));
        out
    }

    /// One of the anchors was restored (its cursor is given), or none could be.  Returns whether
    /// the seek can go on.
    pub fn anchor_restored(&mut self, cursor: Option<usize>) -> (r: bool)
        requires
            old(self)@.wf(),
            cursor matches Some(c) ==> c <= old(self)@.log.len(),
        ensures
            r == cursor is Some,
            final(self)@ == (match cursor {
                Some(c) => SpectatorView {
                    cursor: c as int,
                    current_frame: c as i32,
                    headless_since_visible: 0,
                    ..old(self)@
                },
                None => SpectatorView { headless_since_visible: 0, ..old(self)@ },
            }),
            final(self)@.wf(),
    {
        self.headless_since_visible = 0;
        match cursor {
            Some(c) => {
                self.cursor = c;
                self.current_frame = c as i32;
                true
            },
            None => false,
        }
    }

    /// Whether the state after the present frame is to be stored as a checkpoint.
    pub fn wants_checkpoint(&self) -> (r: bool)
        requires
            self@.wf(),
        ensures
            r == self@.checkpoint_due(),
    {
        let c: usize = self.cursor;
        if c == 0 || c % SPECTATOR_CHECKPOINT_INTERVAL != 0 {
            return false;
        }
        let n: usize = self.count_checkpoints(c);
        proof {
            count_up_to_bound(self@.checkpoints, c as int);
            if n > 0 {
                assert(self@.checkpoints[n - 1].0 == self.checkpoints@[n - 1].cursor);
            }
        }
        if n > 0 && self.checkpoints[n - 1].cursor == c {
            return false;
        }
        assert forall|i: int| 0 <= i < self@.checkpoints.len() implies (#[trigger] self@.checkpoints[i]).0
            != self@.cursor by {
            if i < n - 1 {
                assert(self@.checkpoints[i].0 < self@.checkpoints[n - 1].0);
            }
        }
        true
    }

    /// Store the state after the present frame, at its place among the checkpoints.
    pub fn store_checkpoint(&mut self, bytes: Vec<u8>)
        requires
            old(self)@.wf(),
            old(self)@.checkpoint_due(),
        ensures
            final(self)@ == (SpectatorView {
                checkpoints: old(self)@.checkpoints.insert(
                    count_up_to(old(self)@.checkpoints, old(self)@.cursor) as int,
                    (old(self)@.cursor, bytes@),
                ),
                ..old(self)@
            }),
            final(self)@.wf(),
    {
        let ghost before = self@.checkpoints;
        let n: usize = self.count_checkpoints(self.cursor);
        self.checkpoints.insert(n, Checkpoint { cursor: self.cursor, bytes });
        let ghost after = before.insert(n as int, (self@.cursor, bytes@));
        assert(self@.checkpoints =~= after);
        proof {
            count_up_to_bound(before, self@.cursor);
            assert forall|i: int, j: int| 0 <= i < j < after.len() implies (#[trigger] after[i]).0 < (
            #[trigger] after[j]).0 by {
                if i < n {
                    assert(after[i] == before[i]);
                } else if i > n {
                    assert(after[i] == before[i - 1]);
                }
                if j < n {
                    assert(after[j] == before[j]);
                } else if j > n {
                    assert(after[j] == before[j - 1]);
                }
            }
            assert forall|i: int| 0 <= i < after.len() implies (#[trigger] after[i]).0 > 0 && after[i].0 % (
            SPECTATOR_CHECKPOINT_INTERVAL as int) == 0 by {
                if i < n {
                    assert(after[i] == before[i]);
                } else if i > n {
                    assert(after[i] == before[i - 1]);
                }
            }
        }
    }

    /// The nearest checkpoint at or before a cursor.
    pub fn best_checkpoint_cursor(&self, max_cursor: usize) -> (r: Option<usize>)
        requires
            self@.wf(),
        ensures
            match r {
                Some(c) => self@.best_checkpoint(max_cursor as int) == Some(c as int),
                None => self@.best_checkpoint(max_cursor as int) is None,
            },
    {
        let n: usize = self.count_checkpoints(max_cursor);
        if n > 0 {
            let c: usize = self.checkpoints[n - 1].cursor;
            assert(self@.checkpoints[n - 1].0 == c);
            Some(c)
        } else {
            None
        }
    }

    pub fn video_ready(&self) -> (r: bool)
        ensures
            r == (self@.frames_since_running > 0),
    {
        self.frames_since_running > 0
    }

    pub fn audio_ready(&self) -> (r: bool)
        ensures
            r == (self@.frames_since_running > 0),
    {
        self.frames_since_running > 0
    }

    /// Frames shown so far, up to the thirty over which the picture fades in.
    pub fn fade_frames(&self) -> (r: u32)
        ensures
            r == (if self@.frames_since_running < 30 { self@.frames_since_running as int } else { 30 }),
    {
        if self.frames_since_running < 30 { self.frames_since_running } else { 30 }
    }

    /// Take the next frame to be shown; `None` after an error or at the end of the log.
    pub fn advance(&mut self) -> (r: Option<InputState>)
        requires
            old(self)@.wf(),
            old(self)@.total_advance_calls < u64::MAX,
        ensures
            ({
                let called = SpectatorView {
                    total_advance_calls: (old(self)@.total_advance_calls + 1) as u64,
                    ..old(self)@
                };
                if old(self)@.error is Some || old(self)@.cursor >= old(self)@.log.len() {
                    r is None && final(self)@ == called
                } else {
                    r == Some(pair_input(old(self)@.log[old(self)@.cursor])) && final(self)@
                        == called.ran_visible()
                }
            }),
            final(self)@.wf(),
    {
        self.total_advance_calls = self.total_advance_calls + 1;
        if self.error.is_some() || self.cursor >= self.log.len() {
            return None;
        }
        Some(self.run_visible())
    }

    pub fn total_advance_calls(&self) -> (r: u64)
        ensures
            r == self@.total_advance_calls,
    {
        self.total_advance_calls
    }

    /// A status line for the viewer.
    pub fn status(&self) -> (r: String)
        ensures
            r@ == self@.status_text(),
    {
        let buffered: usize = self.buffered_frames();
        if buffered == 0 {
            String::from_str("WAITING FOR INPUTS…")
        } else if buffered > 60 {
            let mut s = String::from_str("CATCHING UP  (");
            push_decimal(&mut s, buffered as u64);
            s.append(" behind)");
            s
        } else {
            let mut s = String::from_str("SPECTATING  (");
            push_decimal(&mut s, buffered as u64);
            s.append(" buffered)");
            s
        }
    }
}

// ── Laws ─────────────────────────────────────────────────────────────────────

/// A machine's state after the first `n` frames of a log, from a state and a step function.
pub open spec fn played<S>(step: spec_fn(S, InputState) -> S, start: S, log: Seq<(u32, u32)>, n: int) -> S
    decreases n,
{
    if n <= 0 { start } else { step(played(step, start, log, n - 1), pair_input(log[n - 1])) }
}

/// A machine's state after running `n` frames of a log from frame `from` on.
pub open spec fn played_from<S>(
    step: spec_fn(S, InputState) -> S,
    state: S,
    log: Seq<(u32, u32)>,
    from: int,
    n: int,
) -> S
    decreases n,
{
    if n <= 0 {
        state
    } else {
        step(played_from(step, state, log, from, n - 1), pair_input(log[from + n - 1]))
    }
}

/// A seek shows what straight playback shows: from a checkpoint that holds the state of its
/// frame, running the log up to the target gives the state that playing from the start has
/// there, for every deterministic machine.
pub proof fn seeking_reaches_the_played_state<S>(
    step: spec_fn(S, InputState) -> S,
    start: S,
    log: Seq<(u32, u32)>,
    anchor: int,
    target: int,
)
    requires
        0 <= anchor <= target <= log.len(),
    ensures
        played_from(step, played(step, start, log, anchor), log, anchor, target - anchor) == played(
            step,
            start,
            log,
            target,
        ),
    decreases target,
{
    if target > anchor {
        seeking_reaches_the_played_state(step, start, log, anchor, target - 1);
    }
}

/// Every step of a seek brings it closer: either the cursor moves towards the target, or the
/// slice ends, or a restore puts the cursor before the target.
pub proof fn seek_makes_progress(v: SpectatorView, target: i32, steps: int, cap: int, out_of_time: bool)
    requires
        v.wf(),
        0 < v.log.len() <= i32::MAX,
    ensures
        ({
            let t = v.seek_target(target);
            let a = v.seek_action(target, steps, cap, out_of_time);
            let w = v.after_action(a);
            &&& a is Headless ==> w.cursor == v.cursor + 1 && w.cursor < t
            &&& a is Visible ==> w.cursor == t
            &&& a is Restore ==> v.cursor > t && v.anchor(t - 1).0 < t
            &&& a matches SeekAction::Report(SeekProgress::Done { cursor }) ==> v.cursor == t
        }),
{
    count_up_to_bound(v.checkpoints, v.seek_target(target) - 1);
}

/// The nearest checkpoint for a cursor is one of the checkpoints, the largest that is not beyond
/// it, and stands at a whole number of intervals after the start; there is none exactly where
/// all checkpoints lie beyond the cursor.
pub proof fn best_checkpoint_is_nearest(v: SpectatorView, max_cursor: int)
    requires
        v.wf(),
    ensures
        v.best_checkpoint(max_cursor) is None <==> (forall|i: int|
            0 <= i < v.checkpoints.len() ==> (#[trigger] v.checkpoints[i]).0 > max_cursor),
        v.best_checkpoint(max_cursor) matches Some(c) ==> {
            &&& 0 < c <= max_cursor
            &&& c % (SPECTATOR_CHECKPOINT_INTERVAL as int) == 0
            &&& exists|i: int| 0 <= i < v.checkpoints.len() && (#[trigger] v.checkpoints[i]).0 == c
            &&& forall|i: int|
                0 <= i < v.checkpoints.len() && (#[trigger] v.checkpoints[i]).0 <= max_cursor
                    ==> v.checkpoints[i].0 <= c
        },
{
    count_up_to_bound(v.checkpoints, max_cursor);
    let n = count_up_to(v.checkpoints, max_cursor) as int;
    if n > 0 {
        let c = v.checkpoints[n - 1].0;
        assert forall|i: int|
            0 <= i < v.checkpoints.len() && (#[trigger] v.checkpoints[i]).0
                <= max_cursor implies v.checkpoints[i].0 <= c by {
            if i < n - 1 {
                assert(v.checkpoints[i].0 < v.checkpoints[n - 1].0);
            }
        }
    }
}

/// A later cursor has no earlier checkpoint: the nearest one grows with the cursor.
pub proof fn best_checkpoint_grows(v: SpectatorView, a: int, b: int)
    requires
        v.wf(),
        a <= b,
    ensures
        v.best_checkpoint(a) matches Some(c) ==> (v.best_checkpoint(b) matches Some(d) && c <= d),
{
    best_checkpoint_is_nearest(v, a);
    best_checkpoint_is_nearest(v, b);
}

/// A rewind starts from the nearest checkpoint: none between it and the target is passed over.
pub proof fn rewind_uses_nearest_checkpoint(v: SpectatorView, max_cursor: int, i: int)
    requires
        v.wf(),
        0 <= max_cursor,
        0 <= i < v.checkpoints.len(),
        v.checkpoints[i].0 <= max_cursor,
    ensures
        v.checkpoints[i].0 <= v.anchor(max_cursor).0 <= max_cursor,
{
    count_up_to_bound(v.checkpoints, max_cursor);
    let n = count_up_to(v.checkpoints, max_cursor) as int;
    if i < n - 1 {
        assert(v.checkpoints[i].0 < v.checkpoints[n - 1].0);
    }
}

/// A payload cut anywhere and pushed in two parts gives the same log, as long as the cut falls
/// between frames.
pub proof fn split_payloads_join(a: Seq<u8>, b: Seq<u8>)
    requires
        a.len() % 8 == 0,
    ensures
        pairs_in(a) + pairs_in(b) == pairs_in(a + b),
{
    assert forall|i: int| 0 <= i < pairs_in(a + b).len() implies #[trigger] pairs_in(a + b)[i] == (pairs_in(a)
        + pairs_in(b))[i] by {
        let n = a.len() / 8;
        if i < n {
            assert((a + b).subrange(8 * i, 8 * i + 8) =~= a.subrange(8 * i, 8 * i + 8));
        } else {
            assert((a + b).subrange(8 * i, 8 * i + 8) =~= b.subrange(8 * (i - n), 8 * (i - n) + 8));
        }
    }
    assert(pairs_in(a) + pairs_in(b) =~= pairs_in(a + b));
}

/// A seek goes to the frame it names, or to the nearest one that there is, and never to the start.
pub proof fn seeks_stay_within_the_log(v: SpectatorView, target: i32)
    requires
        v.log.len() >= 1,
    ensures
        1 <= v.seek_target(target) <= v.log.len(),
        1 <= target <= v.log.len() ==> v.seek_target(target) == target,
        target < 1 ==> v.seek_target(target) == 1,
        target > v.log.len() ==> v.seek_target(target) == v.log.len(),
{
}

/// What is played is what the peers sent: the input of a logged pair is the two inputs put
/// together, the first peer's first.
pub proof fn logged_pairs_are_the_peers(a: InputState, b: InputState)
    requires
        a.ext <= 0x0F,
        b.ext <= 0x0F,
        a.coin <= 0x3F,
        b.coin <= 0x3F,
    ensures
        ({
            let i = pair_input((packed(a), packed(b)));
            &&& i.p1 == a.p1
            &&& i.p2 == b.p1
        }),
{
    crate::io::pack_unpack_inverse(a, 0);
    crate::io::pack_unpack_inverse(b, 0);
}

/// A payload holds pairs of eight bytes: the first peer's word, then the second's, lowest byte
/// first; bytes that make no pair are left.
pub proof fn payload_holds_pairs(payload: Seq<u8>, i: int)
    requires
        0 <= i < payload.len() / 8,
    ensures
        pairs_in(payload).len() == payload.len() / 8,
        pairs_in(payload)[i].0 == payload[8 * i] + 0x100 * payload[8 * i + 1] + 0x1_0000 * payload[8 * i + 2] + 0x100_0000
            * payload[8 * i + 3],
        pairs_in(payload)[i].1 == payload[8 * i + 4] + 0x100 * payload[8 * i + 5] + 0x1_0000 * payload[8 * i + 6]
            + 0x100_0000 * payload[8 * i + 7],
{
    let b = payload.subrange(8 * i, 8 * i + 8);
    crate::bytes::bytes_are_digits(0, 0, b[0], b[1], b[2], b[3]);
    crate::bytes::bytes_are_digits(0, 0, b[4], b[5], b[6], b[7]);
}

/// Running a frame, shown or not, plays the pair at the cursor and moves it on by one; only a shown
/// frame counts as such and ends a run of hidden ones.
pub proof fn frames_move_the_cursor(v: SpectatorView)
    requires
        0 <= v.cursor < v.log.len(),
        v.log.len() < i32::MAX,
    ensures
        v.ran_headless().cursor == v.cursor + 1,
        v.ran_visible().cursor == v.cursor + 1,
        v.ran_headless().current_frame == v.cursor + 1,
        v.ran_visible().current_frame == v.cursor + 1,
        v.ran_headless().last_inputs == v.log[v.cursor],
        v.ran_visible().last_inputs == v.log[v.cursor],
        v.ran_headless().frames_since_running == v.frames_since_running,
        v.ran_visible().headless_since_visible == 0,
        v.headless_since_visible < u32::MAX ==> v.ran_headless().headless_since_visible == v.headless_since_visible + 1,
        v.frames_since_running < u32::MAX ==> v.ran_visible().frames_since_running == v.frames_since_running + 1,
        v.ran_headless().log == v.log,
        v.ran_visible().log == v.log,
        v.ran_headless().checkpoints == v.checkpoints,
        v.ran_visible().checkpoints == v.checkpoints,
{
}

/// Checkpoints are due every 180 frames, but for the start, where none is stored yet.
pub proof fn checkpoints_are_due_every_three_seconds(v: SpectatorView, n: int)
    requires
        v.checkpoints.len() == 0,
        v.cursor == 180 * n,
        n >= 0,
    ensures
        v.checkpoint_due() == (n > 0),
        !(SpectatorView { cursor: v.cursor + 1, ..v }).checkpoint_due(),
{
}

/// What a seek does, by where the cursor stands: at the target it is done; past it, it asks for a
/// state before the target; right before it, the target frame is shown; further back, frames are
/// run unseen as long as the slice lasts.
pub proof fn seek_goes_step_by_step(v: SpectatorView, target: i32, steps: int, cap: int, out_of_time: bool)
    requires
        v.wf(),
        v.log.len() < i32::MAX,
    ensures
        ({
            let a = v.seek_action(target, steps, cap, out_of_time);
            let t = v.seek_target(target);
            &&& v.log.len() == 0 <==> a == SeekAction::Report(SeekProgress::Failed)
            &&& v.log.len() > 0 && v.cursor == t ==> a == SeekAction::Report(
                SeekProgress::Done { cursor: v.current_frame },
            )
            &&& v.log.len() > 0 && v.cursor > t ==> a == SeekAction::Restore {
                max_cursor: (t - 1) as usize,
                target: t as usize,
            }
            &&& v.log.len() > 0 && v.cursor + 1 == t ==> a == SeekAction::Visible(pair_input(v.log[v.cursor]))
            &&& v.log.len() > 0 && v.cursor + 1 < t && steps < cap && !out_of_time ==> a == SeekAction::Headless(
                pair_input(v.log[v.cursor]),
            )
            &&& v.log.len() > 0 && v.cursor + 1 < t && (steps >= cap || out_of_time) ==> a == SeekAction::Report(
                SeekProgress::InProgress { cursor: v.cursor as usize, target: t as usize },
            )
        }),
{
}

/// Hidden frames move the cursor on one by one.
pub proof fn hidden_frames_move_the_cursor(v: SpectatorView, n: int)
    requires
        n >= 0,
    ensures
        v.ran_headless_n(n).cursor == v.cursor + n,
        v.ran_headless_n(n).log == v.log,
        n > 0 ==> v.ran_headless_n(n).last_inputs == v.log[v.cursor + n - 1],
        v.ran_headless_n(n).frames_since_running == v.frames_since_running,
    decreases n,
{
    if n > 0 {
        hidden_frames_move_the_cursor(v, n - 1);
    }
}

} // verus!
