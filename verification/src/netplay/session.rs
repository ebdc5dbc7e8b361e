//! The rules of an online session: handling of network events, when a frame is run, what
//! inputs a frame gets, and what is kept for replays and spectators.
//!
//! A host drives one frame like this: [`OnlineSession::begin_advance`]; every network event to
//! [`OnlineSession::on_event`]; [`OnlineSession::gate`]; then the requests of the rollback
//! engine, one by one, with a [`Batch`]; at the end [`OnlineSession::finish`].

use crate::io::{combine_peers, peers_combined, unpacked, InputState, PackedInput};
use crate::netplay::checksums::{
    fnv1a, fnv1a_64, history_stays_short, pack_checksums, packed_lanes, record, recorded, History, HISTORY_FRAMES,
};
use crate::text::{decimal_int, hex_padded, push_decimal_i64, push_hex};
use std::collections::BTreeMap;
use vstd::prelude::*;

verus! {

/// Input frames that are set aside at the start: two minutes.
pub const INITIAL_INPUT_FRAMES: usize = 7200;

/// Most frames that a session waits for its peer.
pub const MAX_WAIT: u32 = 4;

/// Network statistics for a frontend.
#[derive(Debug, Clone, Copy)]
pub struct NetplayStats {
    /// Round-trip time in milliseconds.
    pub ping_ms: u32,
    /// Frames that the local client is behind the remote.
    pub local_frames_behind: i32,
    /// Frames that the remote client is behind the local.
    pub remote_frames_behind: i32,
    /// Length of the outbound packet queue.
    pub send_queue_len: u32,
    /// Estimated bandwidth in kilobits per second.
    pub kbps_sent: u32,
    /// Catch-up frames of the last advance.
    pub rollback_frames: u32,
    /// Frames still to be waited.
    pub frames_to_wait: u32,
}

impl Default for NetplayStats {
    fn default() -> (r: Self)
        ensures
            r == (NetplayStats {
                ping_ms: 0,
                local_frames_behind: 0,
                remote_frames_behind: 0,
                send_queue_len: 0,
                kbps_sent: 0,
                rollback_frames: 0,
                frames_to_wait: 0,
            }),
    {
        NetplayStats {
            ping_ms: 0,
            local_frames_behind: 0,
            remote_frames_behind: 0,
            send_queue_len: 0,
            kbps_sent: 0,
            rollback_frames: 0,
            frames_to_wait: 0,
        }
    }
}

/// What the rollback engine measures of the link.
#[derive(Debug, Clone, Copy)]
pub struct LinkStats {
    pub ping_ms: u32,
    pub local_frames_behind: i32,
    pub remote_frames_behind: i32,
    pub send_queue_len: u32,
    pub kbps_sent: u32,
}

/// A network event.
#[derive(Debug, Clone, Copy)]
pub enum SessionEvent {
    Disconnected,
    /// The peers' states differ at a frame.
    Desync { frame: i32, local: u128, remote: u128 },
    /// The engine asks to let the peer catch up.
    WaitRecommendation(u32),
    /// Nothing that the session acts on.
    Other,
}

/// What an advance does after the events.
#[derive(Debug, Clone, Copy, PartialEq, Eq, Structural)]
pub enum Gate {
    /// A fatal event was recorded.
    Stop,
    /// This frame is waited out.
    Wait,
    /// The rollback engine is asked for requests.
    Proceed,
}

/// Progress through the requests of one advance.
#[derive(Debug, Clone, Copy, PartialEq, Eq, Structural)]
pub struct Batch {
    /// Frames that the requests advance by.
    pub total_advances: usize,
    pub advance_idx: usize,
    /// A state was loaded.
    pub had_rollback: bool,
    /// Catch-up frames since.
    pub rollback_frames: u32,
}

impl Batch {
    pub fn new(total_advances: usize) -> (r: Self)
        ensures
            r == (Batch { total_advances, advance_idx: 0, had_rollback: false, rollback_frames: 0 }),
    {
        Batch { total_advances, advance_idx: 0, had_rollback: false, rollback_frames: 0 }
    }
}

/// One frame to run.
#[derive(Debug, Clone, Copy, PartialEq, Eq, Structural)]
pub struct FrameRun {
    pub input: InputState,
    /// The frame is shown; others only bring the state forward.
    pub shown: bool,
}

/// An online session.
pub struct OnlineSession {
    pub local_handle: usize,
    pub remote_handle: usize,
    /// A fatal event; the host tears the session down.
    pub error: Option<String>,
    pub frames_since_running: u32,
    /// Frames to wait so that the peer catches up.
    pub frames_to_wait: u32,
    /// The frame that is run next.
    pub current_frame: i32,
    pub total_advance_calls: u64,
    /// Inputs of every frame; a rollback overwrites those of the frames it repeats.
    pub all_inputs: Vec<(PackedInput, PackedInput)>,
    /// Frames already handed out by [`OnlineSession::pull_recent_inputs`]; -1 before the first.
    pub last_polled_frame: i32,
    /// Recent local checksums, by frame.
    pub local_checksums: BTreeMap<i32, [u16; 8]>,
    pub last_rollback_frames: u32,
}

/// What an [`OnlineSession`] holds.
#[verifier::ext_equal]
pub struct SessionView {
    pub local_handle: usize,
    pub remote_handle: usize,
    pub error: Option<Seq<char>>,
    pub frames_since_running: u32,
    pub frames_to_wait: u32,
    pub current_frame: i32,
    pub total_advance_calls: u64,
    pub all_inputs: Seq<(u32, u32)>,
    pub last_polled_frame: i32,
    pub checksums: History,
    pub last_rollback_frames: u32,
}

/// The text of an optional error.
pub open spec fn error_text(e: Option<String>) -> Option<Seq<char>> {
    match e {
        Some(s) => Some(s@),
        None => None,
    }
}

impl View for OnlineSession {
    type V = SessionView;

    open spec fn view(&self) -> SessionView {
        SessionView {
            local_handle: self.local_handle,
            remote_handle: self.remote_handle,
            error: error_text(self.error),
            frames_since_running: self.frames_since_running,
            frames_to_wait: self.frames_to_wait,
            current_frame: self.current_frame,
            total_advance_calls: self.total_advance_calls,
            all_inputs: self.all_inputs@,
            last_polled_frame: self.last_polled_frame,
            checksums: self.local_checksums@,
            last_rollback_frames: self.last_rollback_frames,
        }
    }
}

/// The report of a desync.
pub open spec fn desync_text(frame: i32, local: u128, remote: u128) -> Seq<char> {
    "Desync at frame "@ + decimal_int(frame as int) + " (local="@ + hex_padded(local as nat, 32) + " remote="@
        + hex_padded(remote as nat, 32) + ")"@
}

/// Inputs of a frame put at its place; the frames before it that were never set are idle.
pub open spec fn with_inputs(all: Seq<(u32, u32)>, frame: i32, pair: (u32, u32)) -> Seq<(u32, u32)> {
    if frame < 0 {
        all
    } else {
        Seq::new(
            (if all.len() <= frame { (frame + 1) as nat } else { all.len() }),
            |i: int|
                if i == frame {
                    pair
                } else if i < all.len() {
                    all[i]
                } else {
                    (0u32, 0u32)
                },
        )
    }
}

impl SessionView {
    /// A session that has just connected.
    pub open spec fn started(we_are_player_0: bool) -> SessionView {
        SessionView {
            local_handle: if we_are_player_0 { 0 } else { 1 },
            remote_handle: if we_are_player_0 { 1 } else { 0 },
            error: None,
            frames_since_running: 0,
            frames_to_wait: 0,
            current_frame: 0,
            total_advance_calls: 0,
            all_inputs: Seq::new(INITIAL_INPUT_FRAMES as nat, |i: int| (0u32, 0u32)),
            last_polled_frame: -1i32,
            checksums: Map::empty(),
            last_rollback_frames: 0,
        }
    }

    /// After an event: disconnection and desync are fatal, a recommendation adds to the wait,
    /// which is bounded.
    pub open spec fn after_event(self, e: SessionEvent) -> SessionView {
        match e {
            SessionEvent::Disconnected => SessionView {
                error: Some("Remote player disconnected"@),
                ..self
            },
            SessionEvent::Desync { frame, local, remote } => SessionView {
                error: Some(desync_text(frame, local, remote)),
                ..self
            },
            SessionEvent::WaitRecommendation(skip) => SessionView {
                frames_to_wait: (if self.frames_to_wait + skip < MAX_WAIT {
                    self.frames_to_wait + skip
                } else {
                    MAX_WAIT as int
                }) as u32,
                ..self
            },
            SessionEvent::Other => self,
        }
    }

    /// What the events leave to do.
    pub open spec fn next_gate(self) -> Gate {
        if self.error is Some {
            Gate::Stop
        } else if self.frames_to_wait > 0 {
            Gate::Wait
        } else {
            Gate::Proceed
        }
    }

    /// Frames whose inputs are final, of those that are stored.
    pub open spec fn confirmed_end(self, confirmed: i32) -> int {
        if confirmed + 1 <= self.all_inputs.len() { confirmed + 1 } else { self.all_inputs.len() as int }
    }

    /// Frames already handed out.
    pub open spec fn polled(self) -> int {
        if self.last_polled_frame < 0 { 0 } else { self.last_polled_frame as int }
    }

    /// There is something new to hand out.
    pub open spec fn has_news(self, running: bool, confirmed: i32) -> bool {
        running && confirmed >= 0 && self.polled() < self.confirmed_end(confirmed)
    }

    /// What a poll hands out: the confirmed inputs that were not handed out yet.
    pub open spec fn news(self, running: bool, confirmed: i32) -> Seq<(u32, u32)> {
        if self.has_news(running, confirmed) {
            self.all_inputs.subrange(self.polled(), self.confirmed_end(confirmed))
        } else {
            Seq::empty()
        }
    }

    /// After a poll.
    pub open spec fn after_poll(self, running: bool, confirmed: i32) -> SessionView {
        if self.has_news(running, confirmed) {
            SessionView { last_polled_frame: self.confirmed_end(confirmed) as i32, ..self }
        } else {
            self
        }
    }
}

impl OnlineSession {
    /// No more checksums are remembered than are meant to.
    pub open spec fn wf(&self) -> bool {
        self@.checksums.dom().finite() && self@.checksums.dom().len() <= HISTORY_FRAMES
    }

    /// A session of two connected players.
    pub fn new(we_are_player_0: bool) -> (r: Self)
        ensures
            r@ == SessionView::started(we_are_player_0),
            r.wf(),
    {
        let mut inputs: Vec<(PackedInput, PackedInput)> = Vec::new();
        while inputs.len() < INITIAL_INPUT_FRAMES
            invariant
                inputs@.len() <= INITIAL_INPUT_FRAMES,
                forall|k: int| 0 <= k < inputs@.len() ==> inputs@[k] == (0u32, 0u32),
            decreases INITIAL_INPUT_FRAMES - inputs@.len(),
        {
            inputs.push((0, 0));
        }
        let r = OnlineSession {
            local_handle: if we_are_player_0 { 0 } else { 1 },
            remote_handle: if we_are_player_0 { 1 } else { 0 },
            error: None,
            frames_since_running: 0,
            frames_to_wait: 0,
            current_frame: 0,
            total_advance_calls: 0,
            all_inputs: inputs,
            last_polled_frame: -1,
            local_checksums: BTreeMap::new(),
            last_rollback_frames: 0,
        };
        assert(r@ =~= SessionView::started(we_are_player_0));
        r
    }

    /// An advance starts.
    pub fn begin_advance(&mut self)
        requires
            old(self)@.total_advance_calls < u64::MAX,
        ensures
            final(self)@ == (SessionView {
                total_advance_calls: (old(self)@.total_advance_calls + 1) as u64,
                ..old(self)@
            }),
            old(self).wf() ==> final(self).wf(),
    {
        self.total_advance_calls = self.total_advance_calls + 1;
    }

    /// Take a network event.
    pub fn on_event(&mut self, event: SessionEvent)
        requires
            event matches SessionEvent::WaitRecommendation(n) ==> old(self)@.frames_to_wait + n <= u32::MAX,
        ensures
            final(self)@ == old(self)@.after_event(event),
            old(self).wf() ==> final(self).wf(),
    {
        match event {
            SessionEvent::Disconnected => {
                self.error = Some(String::from_str("Remote player disconnected"));
            },
            SessionEvent::Desync { frame, local, remote } => {
                let mut s = String::from_str("Desync at frame ");
                push_decimal_i64(&mut s, frame as i64);
                s.append(" (local=");
                push_hex(&mut s, local, 32);
                s.append(" remote=");
                push_hex(&mut s, remote, 32);
                s.append(")");
                self.error = Some(s);
            },
            SessionEvent::WaitRecommendation(skip) => {
                let wait: u32 = self.frames_to_wait + skip;
                self.frames_to_wait = if wait < MAX_WAIT { wait } else { MAX_WAIT };
            },
            SessionEvent::Other => {},
        }
    }

    /// Decide what the advance does; a waited frame is counted down.
    pub fn gate(&mut self) -> (r: Gate)
        ensures
            r == old(self)@.next_gate(),
            final(self)@ == (if r == Gate::Wait {
                SessionView { frames_to_wait: (old(self)@.frames_to_wait - 1) as u32, ..old(self)@ }
            } else {
                old(self)@
            }),
            old(self).wf() ==> final(self).wf(),
    {
        if self.error.is_some() {
            return Gate::Stop;
        }
        if self.frames_to_wait > 0 {
            self.frames_to_wait = self.frames_to_wait - 1;
            return Gate::Wait;
        }
        Gate::Proceed
    }

    /// A state was saved for a frame: remember its checksums and return the one to store with
    /// it.  A core without lanes gets the hash of the whole state.
    pub fn on_saved(&mut self, frame: i32, blob: &[u8], hashes: Option<[u16; 8]>) -> (r: u128)
        ensures
            r == (match hashes {
                Some(h) => packed_lanes(h@),
                None => fnv1a_64(blob@) as u128,
            }),
            final(self)@ == (match hashes {
                Some(h) => SessionView { checksums: recorded(old(self)@.checksums, frame, h), ..old(self)@ },
                None => old(self)@,
            }),
            old(self).wf() ==> final(self).wf(),
    {
        match hashes {
            Some(h) => {
                let checksum: u128 = pack_checksums(&h);
                proof {
                    if old(self).wf() {
                        history_stays_short(self@.checksums, frame, h);
                    }
                }
                record(&mut self.local_checksums, frame, h);
                checksum
            },
            None => fnv1a(blob) as u128,
        }
    }

    /// Saving failed; the session ends.
    pub fn on_save_failed(&mut self, e: &str)
        ensures
            final(self)@ == (SessionView { error: Some("save_state failed: "@ + e@), ..old(self)@ }),
            old(self).wf() ==> final(self).wf(),
    {
        let mut s = String::from_str("save_state failed: ");
        s.append(e);
        self.error = Some(s);
    }

    /// The engine goes back to a frame.
    pub fn on_load(&mut self, batch: &mut Batch, frame: i32)
        ensures
            final(self)@ == (SessionView { current_frame: frame, ..old(self)@ }),
            *final(batch) == (Batch { had_rollback: true, rollback_frames: 0, ..*old(batch) }),
            old(self).wf() ==> final(self).wf(),
    {
        batch.had_rollback = true;
        batch.rollback_frames = 0;
        self.current_frame = frame;
    }

    /// The state could not be loaded; the session ends.
    pub fn on_load_failed(&mut self, e: &str)
        ensures
            final(self)@ == (SessionView { error: Some("load_state failed: "@ + e@), ..old(self)@ }),
            old(self).wf() ==> final(self).wf(),
    {
        let mut s = String::from_str("load_state failed: ");
        s.append(e);
        self.error = Some(s);
    }

    /// There was no state to load; the session ends.
    pub fn on_empty_cell(&mut self, frame: i32)
        ensures
            final(self)@ == (SessionView {
                error: Some("load_state: empty GGRS cell at frame "@ + decimal_int(frame as int)),
                ..old(self)@
            }),
            old(self).wf() ==> final(self).wf(),
    {
        let mut s = String::from_str("load_state: empty GGRS cell at frame ");
        push_decimal_i64(&mut s, frame as i64);
        self.error = Some(s);
    }

    fn store_inputs(&mut self, pair: (PackedInput, PackedInput))
        requires
            old(self)@.current_frame >= 0,
        ensures
            final(self)@ == (SessionView {
                all_inputs: with_inputs(old(self)@.all_inputs, old(self)@.current_frame, pair),
                ..old(self)@
            }),
            old(self).wf() ==> final(self).wf(),
    {
        let f: usize = self.current_frame as usize;
        let ghost before = self.all_inputs@;
        while self.all_inputs.len() <= f
            invariant
                f == self.current_frame,
                f <= i32::MAX,
                before.len() <= self.all_inputs@.len(),
                self.all_inputs@.len() <= (if before.len() <= f { (f + 1) as nat } else { before.len() }),
                forall|i: int|
                    0 <= i < self.all_inputs@.len() ==> self.all_inputs@[i] == (if i < before.len() {
                        before[i]
                    } else {
                        (0u32, 0u32)
                    }),
                self@ == (SessionView { all_inputs: self@.all_inputs, ..old(self)@ }),
            decreases f + 1 - self.all_inputs@.len(),
        {
            self.all_inputs.push((0, 0));
        }
        self.all_inputs.set(f, pair);
        assert(self.all_inputs@ =~= with_inputs(before, self.current_frame, pair));
    }

    /// Run one frame with the inputs of both peers: they are stored, and the combined input is
    /// handed back.  Only the last frame of a batch is shown.
    pub fn on_advance(&mut self, batch: &mut Batch, p0: PackedInput, p1: PackedInput) -> (r: FrameRun)
        requires
            old(self)@.current_frame < i32::MAX,
            old(batch).advance_idx < usize::MAX,
            old(batch).rollback_frames < u32::MAX,
        ensures
            r.input == peers_combined(unpacked(p0), unpacked(p1)),
            r.shown == (old(batch).advance_idx + 1 == old(batch).total_advances),
            final(self)@ == (SessionView {
                all_inputs: with_inputs(old(self)@.all_inputs, old(self)@.current_frame, (p0, p1)),
                current_frame: (old(self)@.current_frame + 1) as i32,
                ..old(self)@
            }),
            *final(batch) == (Batch {
                advance_idx: (old(batch).advance_idx + 1) as usize,
                rollback_frames: if !r.shown && old(batch).had_rollback {
                    (old(batch).rollback_frames + 1) as u32
                } else {
                    old(batch).rollback_frames
                },
                ..*old(batch)
            }),
            old(self).wf() ==> final(self).wf(),
    {
        batch.advance_idx = batch.advance_idx + 1;
        let shown = batch.advance_idx == batch.total_advances;
        if self.current_frame >= 0 {
            self.store_inputs((p0, p1));
        }
        self.current_frame = self.current_frame + 1;
        if !shown && batch.had_rollback {
            batch.rollback_frames = batch.rollback_frames + 1;
        }
        FrameRun { input: combine_peers(p0, p1), shown }
    }

    /// All requests were served.  Returns, where a frame was shown, whether history was
    /// corrected on the way.
    pub fn finish(&mut self, batch: &Batch, running: bool) -> (r: Option<bool>)
        ensures
            r == (if batch.total_advances > 0 && batch.advance_idx >= batch.total_advances {
                Some(batch.had_rollback)
            } else {
                None
            }),
            final(self)@ == (SessionView {
                frames_since_running: if running && r is Some && old(self)@.frames_since_running < u32::MAX {
                    (old(self)@.frames_since_running + 1) as u32
                } else {
                    old(self)@.frames_since_running
                },
                last_rollback_frames: batch.rollback_frames,
                ..old(self)@
            }),
            old(self).wf() ==> final(self).wf(),
    {
        let shown = batch.total_advances > 0 && batch.advance_idx >= batch.total_advances;
        if running && shown && self.frames_since_running < u32::MAX {
            self.frames_since_running = self.frames_since_running + 1;
        }
        self.last_rollback_frames = batch.rollback_frames;
        if shown { Some(batch.had_rollback) } else { None }
    }

    /// Whether the session has produced a real frame.
    pub fn video_ready(&self) -> (r: bool)
        ensures
            r == (self@.frames_since_running > 0),
    {
        self.frames_since_running > 0
    }

    /// Whether audio is to be heard.
    pub fn audio_ready(&self) -> (r: bool)
        ensures
            r == (self@.frames_since_running > 0),
    {
        self.frames_since_running > 0
    }

    /// Frames since the session runs, up to the thirty over which the picture fades in.
    pub fn fade_frames(&self) -> (r: u32)
        ensures
            r == (if self@.frames_since_running < 30 { self@.frames_since_running as int } else { 30 }),
    {
        if self.frames_since_running < 30 { self.frames_since_running } else { 30 }
    }

    /// Statistics of the link, where there are any, with those of the session.
    pub fn get_stats(&self, link: Option<LinkStats>) -> (r: NetplayStats)
        ensures
            r.rollback_frames == self@.last_rollback_frames,
            r.frames_to_wait == self@.frames_to_wait,
            link matches Some(l) ==> r.ping_ms == l.ping_ms && r.local_frames_behind == l.local_frames_behind
                && r.remote_frames_behind == l.remote_frames_behind && r.send_queue_len == l.send_queue_len
                && r.kbps_sent == l.kbps_sent,
            link is None ==> r.ping_ms == 0 && r.local_frames_behind == 0 && r.remote_frames_behind == 0
                && r.send_queue_len == 0 && r.kbps_sent == 0,
    {
        match link {
            Some(l) => NetplayStats {
                ping_ms: l.ping_ms,
                local_frames_behind: l.local_frames_behind,
                remote_frames_behind: l.remote_frames_behind,
                send_queue_len: l.send_queue_len,
                kbps_sent: l.kbps_sent,
                rollback_frames: self.last_rollback_frames,
                frames_to_wait: self.frames_to_wait,
            },
            None => NetplayStats {
                rollback_frames: self.last_rollback_frames,
                frames_to_wait: self.frames_to_wait,
                ..NetplayStats::default()
            },
        }
    }

    /// The confirmed inputs since the last poll, for spectators.  Only inputs that both peers
    /// have sent are handed out: predicted ones may change, and a spectator cannot go back.
    pub fn pull_recent_inputs(&mut self, running: bool, confirmed: i32) -> (r: Vec<(PackedInput, PackedInput)>)
        ensures
            r@ == old(self)@.news(running, confirmed),
            final(self)@ == old(self)@.after_poll(running, confirmed),
            old(self).wf() ==> final(self).wf(),
    {
        let mut res: Vec<(PackedInput, PackedInput)> = Vec::new();
        if !running || confirmed < 0 {
            return res;
        }
        let stored: usize = self.all_inputs.len();
        let end: usize = if (confirmed as usize) < stored { confirmed as usize + 1 } else { stored };
        let last: usize = if self.last_polled_frame < 0 { 0 } else { self.last_polled_frame as usize };
        if end <= last {
            return res;
        }
        let mut i: usize = last;
        while i < end
            invariant
                last <= i <= end <= self.all_inputs@.len(),
                res@ == self.all_inputs@.subrange(last as int, i as int),
            decreases end - i,
        {
            res.push(self.all_inputs[i]);
            assert(res@ =~= self.all_inputs@.subrange(last as int, i + 1));
            i = i + 1;
        }
        self.last_polled_frame = end as i32;
        res
    }

    /// The inputs of all frames that were run, for a replay.  These include the last frames of
    /// a match, which may not be confirmed yet.
    pub fn get_full_replay_data(&self) -> (r: Vec<(PackedInput, PackedInput)>)
        ensures
            r@ == self@.all_inputs.take(
                if self@.current_frame < 0 {
                    0
                } else if self@.current_frame <= self@.all_inputs.len() {
                    self@.current_frame as int
                } else {
                    self@.all_inputs.len() as int
                },
            ),
    {
        let run: usize = if self.current_frame < 0 { 0 } else { self.current_frame as usize };
        let end: usize = if run <= self.all_inputs.len() { run } else { self.all_inputs.len() };
        let mut res: Vec<(PackedInput, PackedInput)> = Vec::new();
        let mut i: usize = 0;
        while i < end
            invariant
                i <= end <= self.all_inputs@.len(),
                res@ == self.all_inputs@.take(i as int),
            decreases end - i,
        {
            res.push(self.all_inputs[i]);
            assert(res@ =~= self.all_inputs@.take(i + 1));
            i = i + 1;
        }
        res
    }

    pub fn total_advance_calls(&self) -> (r: u64)
        ensures
            r == self@.total_advance_calls,
    {
        self.total_advance_calls
    }

    /// The inputs of the frame that was run last; `None` before the first.
    pub fn last_inputs(&self) -> (r: Option<(PackedInput, PackedInput)>)
        ensures
            r == (if self@.current_frame >= 1 && self@.current_frame <= self@.all_inputs.len() {
                Some(self@.all_inputs[self@.current_frame - 1])
            } else {
                None
            }),
    {
        if self.current_frame < 1 {
            return None;
        }
        let frame: usize = self.current_frame as usize - 1;
        if frame < self.all_inputs.len() { Some(self.all_inputs[frame]) } else { None }
    }
}

// ── Laws ─────────────────────────────────────────────────────────────────────

/// Spectators get every confirmed frame once and in order: two polls together hand out the
/// confirmed inputs from where the first one started, without a gap, as long as confirmed
/// inputs do not change.
pub proof fn polls_hand_out_every_frame_once(s: SessionView, first: i32, later: SessionView, second: i32)
    requires
        0 <= first <= second < i32::MAX,
        s.has_news(true, first),
        later.last_polled_frame == s.after_poll(true, first).last_polled_frame,
        later.all_inputs.len() >= s.all_inputs.len(),
        forall|i: int| 0 <= i <= first && i < s.all_inputs.len() ==> later.all_inputs[i] == s.all_inputs[i],
    ensures
        s.news(true, first) + later.news(true, second) == later.all_inputs.subrange(
            s.polled(),
            later.confirmed_end(second),
        ),
{
    let mid = s.confirmed_end(first);
    assert(s.news(true, first) =~= later.all_inputs.subrange(s.polled(), mid));
    assert(later.polled() == mid);
    assert(s.news(true, first) + later.news(true, second) =~= later.all_inputs.subrange(
        s.polled(),
        later.confirmed_end(second),
    ));
}

/// Running a frame again after a rollback replaces its inputs and no others.
pub proof fn rollback_replaces_one_frame(all: Seq<(u32, u32)>, frame: i32, pair: (u32, u32), i: int)
    requires
        frame >= 0,
        0 <= i < all.len(),
    ensures
        with_inputs(all, frame, pair)[frame as int] == pair,
        i != frame ==> with_inputs(all, frame, pair)[i] == all[i],
        with_inputs(all, frame, pair).len() >= all.len(),
{
}

/// The wait for a peer is never longer than the bound, whatever is recommended.
pub proof fn wait_is_bounded(s: SessionView, e: SessionEvent)
    requires
        s.frames_to_wait <= MAX_WAIT,
    ensures
        s.after_event(e).frames_to_wait <= MAX_WAIT,
{
}

/// A fatal event stops the session: no frame is run after it, whatever comes next.
pub proof fn fatal_events_stop(s: SessionView, e: SessionEvent, then: SessionEvent)
    requires
        e is Disconnected || e is Desync,
    ensures
        s.after_event(e).next_gate() == Gate::Stop,
        s.after_event(e).after_event(then).next_gate() == Gate::Stop,
{
}

/// The two ends of a session have opposite handles: the first player's is 0, the second's 1.
pub proof fn ends_have_opposite_handles()
    ensures
        SessionView::started(true).local_handle == 0,
        SessionView::started(true).remote_handle == 1,
        SessionView::started(false).local_handle == 1,
        SessionView::started(false).remote_handle == 0,
        SessionView::started(true).next_gate() == Gate::Proceed,
{
}

/// Recommended waits add up to four frames at most; frames are waited out as long as any are left
/// and run otherwise.
pub proof fn waits_add_up_to_four(s: SessionView, n: u32)
    requires
        s.error is None,
    ensures
        ({
            let t = s.after_event(SessionEvent::WaitRecommendation(n));
            &&& s.frames_to_wait + n <= 4 ==> t.frames_to_wait == s.frames_to_wait + n
            &&& s.frames_to_wait + n > 4 ==> t.frames_to_wait == 4
            &&& t == (SessionView { frames_to_wait: t.frames_to_wait, ..s })
        }),
        s.frames_to_wait > 0 ==> s.next_gate() == Gate::Wait,
        s.frames_to_wait == 0 ==> s.next_gate() == Gate::Proceed,
        s.after_event(SessionEvent::Other) == s,
{
}

/// Only confirmed frames are handed out: each of them, from the first that was not handed out up
/// to the confirmed one, under its own number.
pub proof fn only_confirmed_frames_are_handed_out(s: SessionView, running: bool, confirmed: i32, f: int)
    requires
        0 <= s.last_polled_frame <= s.all_inputs.len(),
        confirmed < s.all_inputs.len(),
        confirmed < i32::MAX,
    ensures
        !running || confirmed < s.last_polled_frame ==> s.news(running, confirmed).len() == 0 && s.after_poll(
            running,
            confirmed,
        ) == s,
        running && s.last_polled_frame <= confirmed ==> {
            &&& s.news(running, confirmed).len() == confirmed + 1 - s.last_polled_frame
            &&& s.last_polled_frame <= f <= confirmed ==> s.news(running, confirmed)[f - s.last_polled_frame]
                == s.all_inputs[f]
            &&& s.after_poll(running, confirmed).last_polled_frame == confirmed + 1
        },
{
}

/// The first poll starts with the first frame; one with nothing confirmed hands out nothing.
pub proof fn first_poll_starts_with_the_first_frame(s: SessionView, confirmed: i32, f: int)
    requires
        s.last_polled_frame == -1,
        confirmed < s.all_inputs.len(),
        confirmed < i32::MAX,
    ensures
        confirmed >= 0 ==> s.news(true, confirmed).len() == confirmed + 1,
        0 <= f <= confirmed ==> s.news(true, confirmed)[f] == s.all_inputs[f],
        confirmed >= 0 ==> s.after_poll(true, confirmed).last_polled_frame == confirmed + 1,
        confirmed < 0 ==> s.news(true, confirmed).len() == 0 && s.after_poll(true, confirmed) == s,
{
}

} // verus!
