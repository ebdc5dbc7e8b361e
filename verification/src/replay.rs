//! Replay and recording of player input, frame by frame.
//!
//! A replay file holds, for every frame, the packed inputs of two peers as 32-bit
//! little-endian words, compressed with zlib (or plain).

use crate::bytes::{from_le32, le32};
use crate::io::{
    combine_peers, pack_input, packed, peers_combined, unpacked, InputState, PackedInput,
};
use std::io::{Read, Write};
use vstd::prelude::*;

verus! {

/// What a zlib stream inflates to, or the message with which it is refused.
pub uninterp spec fn zlib_inflated(data: Seq<u8>) -> Result<Seq<u8>, Seq<char>>;

/// `flate2::read::ZlibDecoder` read to its end: the inflated bytes, or the error's text,
/// are a function of the input.
#[verifier::external_body]
fn zlib_inflate(data: &[u8]) -> (r: Result<Vec<u8>, String>)
    ensures
        r is Ok <==> zlib_inflated(data@) is Ok,
        r matches Ok(raw) ==> raw@ == zlib_inflated(data@)->Ok_0,
        r matches Err(e) ==> e@ == zlib_inflated(data@)->Err_0,
{
    let mut raw = Vec::new();
    let mut decoder = flate2::read::ZlibDecoder::new(data);
    decoder.read_to_end(&mut raw).map(|_| raw).map_err(|e| e.to_string())
}

/// Where compressing failed, and the error's text.
pub enum DeflateError {
    /// While taking the input in.
    Write(String),
    /// At the end of the stream.
    Finish(String),
}

/// The zlib stream, at the default compression, of some bytes.
pub uninterp spec fn zlib_deflated(raw: Seq<u8>) -> Seq<u8>;

/// `flate2::write::ZlibEncoder` at the default compression into a vector, all of the input
/// written and the stream finished: it succeeds, since the vector takes every write and the
/// compressor is driven from a fresh state to the end of its stream. The stream is a function
/// of the input, starts with the header of that level and inflates to the input.
#[verifier::external_body]
fn zlib_deflate(raw: &[u8]) -> (r: Result<Vec<u8>, DeflateError>)
    ensures
        r is Ok,
        r->Ok_0@ == zlib_deflated(raw@),
        (zlib_inflated(r->Ok_0@) == Ok::<Seq<u8>, Seq<char>>(raw@)),
        r->Ok_0@.len() >= 2,
        r->Ok_0@[0] == 0x78,
        r->Ok_0@[1] == 0x9c,
{
    let mut encoder = flate2::write::ZlibEncoder::new(Vec::new(), flate2::Compression::default());
    match encoder.write_all(raw) {
        Ok(()) => encoder.finish().map_err(|e| DeflateError::Finish(e.to_string())),
        Err(e) => Err(DeflateError::Write(e.to_string())),
    }
}

/// The bytes of recorded frames: two words each.
pub open spec fn frames_raw(frames: Seq<(PackedInput, PackedInput)>) -> Seq<u8>
    decreases frames.len(),
{
    if frames.len() == 0 {
        Seq::empty()
    } else {
        frames_raw(frames.drop_last()) + le32(frames.last().0) + le32(frames.last().1)
    }
}

/// The word at position `i` of a byte sequence.
pub open spec fn raw_word(raw: Seq<u8>, i: int) -> u32 {
    from_le32(raw[4 * i], raw[4 * i + 1], raw[4 * i + 2], raw[4 * i + 3])
}

/// The frames of plain replay bytes: a pair of words each; half a frame at the end does
/// not count.
pub open spec fn raw_frames(raw: Seq<u8>) -> Seq<(PackedInput, PackedInput)> {
    Seq::new((raw.len() / 8) as nat, |i: int| (raw_word(raw, 2 * i), raw_word(raw, 2 * i + 1)))
}

/// Whether replay bytes are a zlib stream.
pub open spec fn is_zlib(data: Seq<u8>) -> bool {
    data.len() >= 2 && data[0] == 0x78 && (data[1] == 0x01 || data[1] == 0x9c || data[1] == 0xda)
}

/// The plain bytes of a replay file, or the message with which it is refused.
pub open spec fn replay_raw(data: Seq<u8>) -> Result<Seq<u8>, Seq<char>> {
    if is_zlib(data) {
        match zlib_inflated(data) {
            Ok(raw) => Ok(raw),
            Err(e) => Err("replay decompress: "@ + e),
        }
    } else {
        Ok(data)
    }
}

/// A recorded match being played back.
pub struct ReplaySession {
    frames: Vec<(PackedInput, PackedInput)>,
    cursor: usize,
}

/// The input of one recorded frame.
pub open spec fn frame_input(frame: (PackedInput, PackedInput)) -> InputState {
    peers_combined(unpacked(frame.0), unpacked(frame.1))
}

impl ReplaySession {
    pub closed spec fn frames(&self) -> Seq<(PackedInput, PackedInput)> {
        self.frames@
    }

    pub closed spec fn cursor(&self) -> int {
        self.cursor as int
    }

    /// Load a replay from the bytes of its file.
    pub fn from_bytes(data: &[u8]) -> (r: Result<Self, String>)
        ensures
            replay_raw(data@) is Err ==> r is Err && r->Err_0@ == replay_raw(data@)->Err_0,
            replay_raw(data@) matches Ok(raw) ==> {
                &&& raw.len() % 4 != 0 ==> r is Err && r->Err_0@
                    == "replay bytemuck cast: OutputSliceWouldHaveSlop"@
                &&& raw.len() % 4 == 0 ==> r is Ok && r->Ok_0.frames() == raw_frames(raw)
                    && r->Ok_0.cursor() == 0
            },
    {
        if data.len() >= 2 && data[0] == 0x78 && (data[1] == 0x01 || data[1] == 0x9c || data[1] == 0xda) {
            match zlib_inflate(data) {
                Ok(raw) => Self::from_raw(raw.as_slice()),
                Err(e) => {
                    let mut msg = String::from_str("replay decompress: ");
                    msg.append(e.as_str());
                    Err(msg)
                },
            }
        } else {
            Self::from_raw(data)
        }
    }

    /// Load a replay from plain bytes.
    pub fn from_raw(raw: &[u8]) -> (r: Result<Self, String>)
        ensures
            raw@.len() % 4 != 0 ==> r is Err && r->Err_0@
                == "replay bytemuck cast: OutputSliceWouldHaveSlop"@,
            raw@.len() % 4 == 0 ==> r is Ok && r->Ok_0.frames() == raw_frames(raw@)
                && r->Ok_0.cursor() == 0,
    {
        if raw.len() % 4 != 0 {
            return Err(String::from_str("replay bytemuck cast: OutputSliceWouldHaveSlop"));
        }
        let len: usize = raw.len();
        let n: usize = len / 8;
        let mut frames: Vec<(PackedInput, PackedInput)> = Vec::with_capacity(n);
        let mut i: usize = 0;
        while i < n
            invariant
                len == raw@.len(),
                n == len / 8,
                i <= n,
                frames@.len() == i,
                forall|k: int| 0 <= k < i ==> frames@[k] == raw_frames(raw@)[k],
            decreases n - i,
        {
            let a: usize = 8 * i;
            let p0: u32 = (raw[a] as u32) | ((raw[a + 1] as u32) << 8) | ((raw[a + 2] as u32) << 16) | ((
            raw[a + 3] as u32) << 24);
            let p1: u32 = (raw[a + 4] as u32) | ((raw[a + 5] as u32) << 8) | ((raw[a + 6] as u32) << 16)
                | ((raw[a + 7] as u32) << 24);
            frames.push((p0, p1));
            i = i + 1;
        }
        assert(frames@ =~= raw_frames(raw@));
        Ok(ReplaySession { frames, cursor: 0 })
    }

    /// The input of the next frame; after the last one that one repeats, and an empty
    /// replay presses nothing.
    pub fn next_frame(&mut self, frame: u64) -> (r: InputState)
        requires
            old(self).cursor() < usize::MAX,
        ensures
            final(self).frames() == old(self).frames(),
            old(self).frames().len() == 0 ==> r == InputState::idle() && final(self).cursor()
                == old(self).cursor(),
            old(self).frames().len() > 0 ==> final(self).cursor() == old(self).cursor() + 1 && r
                == frame_input(
                old(self).frames()[if old(self).cursor() < old(self).frames().len() {
                    old(self).cursor()
                } else {
                    old(self).frames().len() - 1
                }],
            ),
    {
        if self.frames.len() == 0 {
            return InputState::default();
        }
        let last: usize = self.frames.len() - 1;
        let idx: usize = if self.cursor < last { self.cursor } else { last };
        let (p0_packed, p1_packed) = self.frames[idx];
        self.cursor = self.cursor + 1;
        combine_peers(p0_packed, p1_packed)
    }

    /// Whether every frame has been played.
    pub fn is_done(&self, frame: u64) -> (r: bool)
        ensures
            r == (self.cursor() >= self.frames().len()),
    {
        self.cursor >= self.frames.len()
    }
}

/// A match being recorded.
pub struct RecordSession {
    frames: Vec<(PackedInput, PackedInput)>,
    path: String,
}

/// The two peers' packed inputs that stand for one frame's input.
pub open spec fn recorded(input: InputState) -> (PackedInput, PackedInput) {
    (
        packed(
            InputState {
                p1: input.p1,
                p2: 0xFF,
                sys: input.sys,
                coin: input.coin,
                ext: (input.ext & 0x03) | 0x0C,
            },
        ),
        packed(
            InputState {
                p1: input.p2,
                p2: 0xFF,
                sys: 0xFF,
                coin: 0xFF,
                ext: ((input.ext >> 2) & 0x03) | 0x0C,
            },
        ),
    )
}

impl RecordSession {
    pub closed spec fn frames(&self) -> Seq<(PackedInput, PackedInput)> {
        self.frames@
    }

    pub closed spec fn path_text(&self) -> Seq<char> {
        self.path@
    }

    /// An empty recording, to be saved at `path`.
    pub fn new(path: &str) -> (r: Self)
        ensures
            r.frames() == Seq::<(PackedInput, PackedInput)>::empty(),
            r.path_text() == path@,
    {
        RecordSession { frames: Vec::new(), path: String::from_str(path) }
    }

    /// Where the recording is to be saved.
    pub fn path(&self) -> (r: &str)
        ensures
            r@ == self.path_text(),
    {
        self.path.as_str()
    }

    /// Append one frame's input.
    pub fn record(&mut self, frame: u64, input: &InputState)
        ensures
            final(self).frames() == old(self).frames().push(recorded(*input)),
            final(self).path_text() == old(self).path_text(),
    {
        let p0_inp = InputState {
            p1: input.p1,
            p2: 0xFF,
            sys: input.sys,
            coin: input.coin,
            ext: (input.ext & 0x03) | 0x0C,
        };
        let p1_inp = InputState {
            p1: input.p2,
            p2: 0xFF,
            sys: 0xFF,
            coin: 0xFF,
            ext: ((input.ext >> 2) & 0x03) | 0x0C,
        };
        self.frames.push((pack_input(&p0_inp), pack_input(&p1_inp)));
    }

    /// The plain bytes of the recording.
    pub fn raw_bytes(&self) -> (r: Vec<u8>)
        ensures
            r@ == frames_raw(self.frames()),
    {
        let mut out: Vec<u8> = Vec::new();
        let mut i: usize = 0;
        assert(self.frames@.take(0) =~= Seq::<(PackedInput, PackedInput)>::empty());
        while i < self.frames.len()
            invariant
                i <= self.frames@.len(),
                out@ == frames_raw(self.frames@.take(i as int)),
            decreases self.frames@.len() - i,
        {
            let (p0, p1) = self.frames[i];
            push_le32(&mut out, p0);
            push_le32(&mut out, p1);
            assert(self.frames@.take(i + 1).drop_last() =~= self.frames@.take(i as int));
            i = i + 1;
        }
        assert(self.frames@.take(i as int) =~= self.frames@);
        out
    }

    /// The bytes of the replay file: the recording, compressed.
    pub fn to_bytes(&self) -> (r: Result<Vec<u8>, String>)
        ensures
            r matches Ok(z) && z@ == zlib_deflated(frames_raw(self.frames())) && replay_raw(z@) == Ok::<
                Seq<u8>,
                Seq<char>,
            >(frames_raw(self.frames())),
    {
        compressed_file(zlib_deflate(self.raw_bytes().as_slice()))
    }
}

/// The bytes of a replay file, given how the compressor ended.
pub fn compressed_file(z: Result<Vec<u8>, DeflateError>) -> (r: Result<Vec<u8>, String>)
    ensures
        match z {
            Ok(file) => r matches Ok(f) && f@ == file@,
            Err(DeflateError::Write(e)) => r matches Err(m) && m@ == "replay compress: "@ + e@,
            Err(DeflateError::Finish(e)) => r matches Err(m) && m@ == "replay compress finish: "@ + e@,
        },
{
    match z {
        Ok(file) => Ok(file),
        Err(DeflateError::Write(e)) => {
            let mut msg = String::from_str("replay compress: ");
            msg.append(e.as_str());
            Err(msg)
        },
        Err(DeflateError::Finish(e)) => {
            let mut msg = String::from_str("replay compress finish: ");
            msg.append(e.as_str());
            Err(msg)
        },
    }
}

fn push_le32(out: &mut Vec<u8>, v: u32)
    ensures
        final(out)@ == old(out)@ + le32(v),
{
    out.push((v & 0xFF) as u8);
    out.push(((v >> 8) & 0xFF) as u8);
    out.push(((v >> 16) & 0xFF) as u8);
    out.push((v >> 24) as u8);
    assert(out@ =~= old(out)@ + le32(v));
}

/// Where each frame's input comes from: live play, a replay, or live play that is
/// recorded.
pub enum InputDriver {
    Live,
    Replay(ReplaySession),
    Record(RecordSession),
}

impl InputDriver {
    pub fn live() -> (r: Self)
        ensures
            r is Live,
    {
        InputDriver::Live
    }

    /// Record to a file at `path`.
    pub fn new_record(path: &str) -> (r: Self)
        ensures
            r matches InputDriver::Record(s) && s.frames() == Seq::<
                (PackedInput, PackedInput),
            >::empty() && s.path_text() == path@,
    {
        InputDriver::Record(RecordSession::new(path))
    }

    /// Play back the bytes of a replay file.
    pub fn new_replay(data: &[u8]) -> (r: Result<Self, String>)
        ensures
            replay_raw(data@) is Err ==> r is Err && r->Err_0@ == replay_raw(data@)->Err_0,
            replay_raw(data@) matches Ok(raw) ==> {
                &&& raw.len() % 4 != 0 ==> r is Err && r->Err_0@
                    == "replay bytemuck cast: OutputSliceWouldHaveSlop"@
                &&& raw.len() % 4 == 0 ==> r is Ok && (r->Ok_0 matches InputDriver::Replay(s)
                    && s.frames() == raw_frames(raw) && s.cursor() == 0)
            },
    {
        match ReplaySession::from_bytes(data) {
            Ok(s) => Ok(InputDriver::Replay(s)),
            Err(e) => Err(e),
        }
    }

    /// The input to apply for a frame, given the live one.
    pub fn next_frame(&mut self, frame: u64, live: InputState) -> (r: InputState)
        requires
            *old(self) matches InputDriver::Replay(s) ==> s.cursor() < usize::MAX,
        ensures
            *old(self) is Live ==> r == live && *final(self) is Live,
            *old(self) matches InputDriver::Replay(s) ==> {
                &&& *final(self) matches InputDriver::Replay(t) && t.frames() == s.frames()
                    && t.cursor() == (if s.frames().len() > 0 { s.cursor() + 1 } else { s.cursor() })
                &&& s.frames().len() == 0 ==> r == InputState::idle()
                &&& s.frames().len() > 0 ==> r == frame_input(
                    s.frames()[if s.cursor() < s.frames().len() {
                        s.cursor()
                    } else {
                        s.frames().len() - 1
                    }],
                )
            },
            *old(self) matches InputDriver::Record(s) ==> {
                &&& r == live
                &&& *final(self) matches InputDriver::Record(t) && t.frames() == s.frames().push(
                    recorded(live),
                ) && t.path_text() == s.path_text()
            },
    {
        match self {
            InputDriver::Live => live,
            InputDriver::Replay(s) => s.next_frame(frame),
            InputDriver::Record(s) => {
                s.record(frame, &live);
                live
            },
        }
    }

    /// The recording to be saved: the path and the bytes of its file; `None` where nothing
    /// is recorded.
    pub fn save_if_recording(&self) -> (r: Result<Option<(String, Vec<u8>)>, String>)
        ensures
            !(*self is Record) ==> r is Ok && r->Ok_0 is None,
            *self matches InputDriver::Record(s) ==> (r matches Ok(Some((path, z))) && path@
                == s.path_text() && z@ == zlib_deflated(frames_raw(s.frames())) && replay_raw(z@) == Ok::<
                Seq<u8>,
                Seq<char>,
            >(frames_raw(s.frames()))),
    {
        match self {
            InputDriver::Record(s) => match s.to_bytes() {
                Ok(z) => Ok(Some((String::from_str(s.path()), z))),
                Err(e) => Err(e),
            },
            _ => Ok(None),
        }
    }
}

/// Playing back a recorded frame presses what was pressed, but for the four unused bits
/// of `ext`.
pub proof fn recording_reproduces(input: InputState)
    ensures
        frame_input(recorded(input)) == (InputState { ext: input.ext & 0x0F, ..input }),
{
    let p0 = InputState {
        p1: input.p1,
        p2: 0xFF,
        sys: input.sys,
        coin: input.coin,
        ext: (input.ext & 0x03) | 0x0C,
    };
    let p1 = InputState {
        p1: input.p2,
        p2: 0xFF,
        sys: 0xFF,
        coin: 0xFF,
        ext: ((input.ext >> 2) & 0x03) | 0x0C,
    };
    crate::io::pack_unpack_inverse(p0, 0);
    crate::io::pack_unpack_inverse(p1, 0);
    let e = input.ext;
    assert((((e & 0x03) | 0x0C) & 0x03) | (((((e >> 2) & 0x03) | 0x0C) & 0x03) << 2) == e & 0x0F
        && 0xFFu8 & 0x01 != 0) by (bit_vector);
}

/// Length of the bytes of recorded frames.
proof fn frames_raw_len(frames: Seq<(PackedInput, PackedInput)>)
    ensures
        frames_raw(frames).len() == 8 * frames.len(),
    decreases frames.len(),
{
    if frames.len() > 0 {
        frames_raw_len(frames.drop_last());
    }
}

/// The frames of a recording's bytes are the recorded frames: what is saved is what is
/// loaded.
pub proof fn saved_frames_load(frames: Seq<(PackedInput, PackedInput)>)
    ensures
        raw_frames(frames_raw(frames)) == frames,
        frames_raw(frames).len() % 4 == 0,
    decreases frames.len(),
{
    frames_raw_len(frames);
    if frames.len() > 0 {
        let init = frames.drop_last();
        let n = init.len() as int;
        saved_frames_load(init);
        frames_raw_len(init);
        let raw = frames_raw(frames);
        let head = frames_raw(init);
        crate::bytes::little_endian_inverse(0, frames.last().0);
        crate::bytes::little_endian_inverse(0, frames.last().1);
        assert(raw_word(raw, 2 * n) == frames.last().0);
        assert(raw_word(raw, 2 * n + 1) == frames.last().1);
        assert forall|i: int| 0 <= i < frames.len() implies raw_frames(raw)[i] == frames[i] by {
            if i < n {
                assert(raw_frames(head)[i] == init[i]);
                assert(raw_word(raw, 2 * i) == raw_word(head, 2 * i));
                assert(raw_word(raw, 2 * i + 1) == raw_word(head, 2 * i + 1));
            }
        }
    }
    assert(raw_frames(frames_raw(frames)) =~= frames);
}

/// The inputs of a whole recording, frame by frame.
pub open spec fn recording(inputs: Seq<InputState>) -> Seq<(PackedInput, PackedInput)> {
    inputs.map_values(|input: InputState| recorded(input))
}

/// A file that holds the plain bytes of a recording loads as a replay of its frames, and frame
/// `i` of that replay presses what frame `i` of the recording saw pressed, but for the four
/// unused bits of `ext`.
pub proof fn saved_recording_replays(inputs: Seq<InputState>, file: Seq<u8>, i: int)
    requires
        replay_raw(file) == Ok::<Seq<u8>, Seq<char>>(frames_raw(recording(inputs))),
        0 <= i < inputs.len(),
    ensures
        replay_raw(file)->Ok_0.len() % 4 == 0,
        raw_frames(replay_raw(file)->Ok_0) == recording(inputs),
        frame_input(raw_frames(replay_raw(file)->Ok_0)[i]) == (InputState {
            ext: inputs[i].ext & 0x0F,
            ..inputs[i]
        }),
{
    saved_frames_load(recording(inputs));
    recording_reproduces(inputs[i]);
}

/// A frame takes eight bytes: the first peer's word, then the second's, lowest byte first.
pub proof fn frames_are_pairs_of_words(raw: Seq<u8>, i: int)
    requires
        0 <= i < raw.len() / 8,
    ensures
        raw_frames(raw).len() == raw.len() / 8,
        raw_frames(raw)[i].0 == raw[8 * i] + 0x100 * raw[8 * i + 1] + 0x1_0000 * raw[8 * i + 2] + 0x100_0000 * raw[8 * i
            + 3],
        raw_frames(raw)[i].1 == raw[8 * i + 4] + 0x100 * raw[8 * i + 5] + 0x1_0000 * raw[8 * i + 6] + 0x100_0000
            * raw[8 * i + 7],
{
    crate::bytes::bytes_are_digits(0, 0, raw[8 * i], raw[8 * i + 1], raw[8 * i + 2], raw[8 * i + 3]);
    crate::bytes::bytes_are_digits(0, 0, raw[8 * i + 4], raw[8 * i + 5], raw[8 * i + 6], raw[8 * i + 7]);
}

/// What counts as compressed starts with a zlib header: deflate with a 32 KB window, a check
/// that 31 divides, no preset dictionary, and one of the levels but the second.
pub proof fn compressed_files_have_a_zlib_header(data: Seq<u8>)
    ensures
        is_zlib(data) == (data.len() >= 2 && data[0] % 16 == 8 && data[0] / 16 == 7 && (256 * data[0] + data[1]) % 31
            == 0 && (data[1] / 32) % 2 == 0 && data[1] / 64 != 1),
        !is_zlib(data) ==> replay_raw(data) == Ok::<Seq<u8>, Seq<char>>(data),
{
}

} // verus!
