//! OKI MSM6295 ADPCM sample player: four voices that play phrases of its ROM.

use crate::cps::save_state::OkiVoiceSnap;
use std::collections::VecDeque;
use vstd::prelude::*;

verus! {

/// Output samples per second.
pub const OUTPUT_RATE: u32 = 44_100;

/// Output samples that are kept before the oldest are dropped: sixteen frames' worth.
pub const RING_CAP: usize = 11_760;

/// Quantiser step sizes.
pub const ADPCM_STEP_TABLE: [i32; 49] = [
    16, 17, 19, 21, 23, 25, 28, 31, 34, 37, 41, 45, 50, 55, 60, 66, 73, 80, 88, 97, 107, 118, 130,
    143, 157, 173, 190, 209, 230, 253, 279, 307, 337, 371, 408, 449, 494, 544, 598, 658, 724, 796,
    876, 963, 1060, 1166, 1282, 1411, 1552,
];

/// The state of one voice.
pub type OkiVoice = OkiVoiceSnap;

/// A silent voice.
pub open spec fn silent_voice() -> OkiVoice {
    OkiVoiceSnap { playing: false, position: 0, stop: 0, signal: 0, step: 0, volume: 8, phase: 0 }
}

/// Volume of an attenuation: about 1.5 dB less per step, no less than the ninth.
pub open spec fn volume_of(attenuation: int) -> i32 {
    if attenuation == 0 {
        32
    } else if attenuation == 1 {
        27
    } else if attenuation == 2 {
        22
    } else if attenuation == 3 {
        18
    } else if attenuation == 4 {
        14
    } else if attenuation == 5 {
        11
    } else if attenuation == 6 {
        8
    } else if attenuation == 7 {
        6
    } else {
        4
    }
}

/// Change of the step index after a nibble.
pub open spec fn index_shift(nibble: int) -> int {
    let m = nibble % 8;
    if m < 4 { -1 } else { (m - 3) * 2 }
}

/// `v` brought into a range.
pub open spec fn clamped(v: int, lo: int, hi: int) -> int {
    if v < lo { lo } else if v > hi { hi } else { v }
}

/// Change of the signal that a nibble codes: its low bits weigh the step size by a quarter,
/// a half and one; its high bit is the sign.
pub open spec fn delta(step_size: int, nibble: int) -> int {
    let size = step_size / 8 + (if nibble % 2 == 1 { step_size / 4 } else { 0 }) + (if (nibble / 2) % 2 == 1 {
        step_size / 2
    } else {
        0
    }) + (if (nibble / 4) % 2 == 1 { step_size } else { 0 });
    if nibble / 8 == 1 { -size } else { size }
}

/// A voice after one nibble.
pub open spec fn decoded(v: OkiVoice, nibble: int) -> OkiVoice {
    OkiVoiceSnap {
        signal: clamped(v.signal + delta(ADPCM_STEP_TABLE@[v.step as int] as int, nibble), -2048, 2047) as i32,
        step: clamped(v.step + index_shift(nibble), 0, 48) as i32,
        ..v
    }
}

/// A byte of the sample ROM; 0 beyond its end.
pub open spec fn rom_byte(rom: Seq<u8>, i: int) -> int {
    if 0 <= i < rom.len() { rom[i] as int } else { 0 }
}

/// A 24-bit big-endian number of the sample ROM.
pub open spec fn rom_address(rom: Seq<u8>, i: int) -> int {
    rom_byte(rom, i) * 65536 + rom_byte(rom, i + 1) * 256 + rom_byte(rom, i + 2)
}

/// The nibble at a position, the high one of a byte first.
pub open spec fn nibble_at(rom: Seq<u8>, position: int) -> int {
    let b = rom_byte(rom, position / 2);
    if position % 2 == 0 { b / 16 } else { b % 16 }
}

/// A voice after one output sample: every 44100 phase units it takes a nibble, and it stops
/// at the end of its phrase.
pub open spec fn voice_after(rom: Seq<u8>, rate: u32, v: OkiVoice) -> OkiVoice {
    let phase = v.phase + rate;
    if !v.playing {
        v
    } else if phase < OUTPUT_RATE {
        OkiVoiceSnap { phase: phase as u32, ..v }
    } else {
        let w = OkiVoiceSnap { phase: (phase - OUTPUT_RATE) as u32, ..v };
        if v.position >= v.stop {
            OkiVoiceSnap { playing: false, ..w }
        } else {
            decoded(
                OkiVoiceSnap { position: (v.position + 1) as u32, ..w },
                nibble_at(rom, v.position as int),
            )
        }
    }
}

/// What a voice adds to an output sample.
pub open spec fn voice_output(rom: Seq<u8>, rate: u32, v: OkiVoice) -> int {
    if v.playing { voice_after(rom, rate, v).signal * voice_after(rom, rate, v).volume } else { 0 }
}

/// What an [`Oki`] holds.
#[verifier::ext_equal]
pub struct OkiView {
    pub rom: Seq<u8>,
    pub voices: Seq<OkiVoice>,
    /// Phrase that waits for its second byte; -1 where none does.
    pub command: i32,
    pub rate: u32,
    /// Output not yet fetched; not part of the machine's state.
    pub ring: Seq<i32>,
}

impl OkiView {
    pub open spec fn wf(self) -> bool {
        &&& self.voices.len() == 4
        &&& forall|i: int| 0 <= i < 4 ==> (#[trigger] self.voices[i]).wf()
        &&& -1 <= self.command < 128
        &&& self.rate == 7575 || self.rate == 6060
    }

    /// A player after power-on.
    pub open spec fn power_on(rom: Seq<u8>) -> OkiView {
        OkiView {
            rom,
            voices: Seq::new(4, |i: int| silent_voice()),
            command: -1i32,
            rate: 7575,
            ring: Seq::empty(),
        }
    }

    /// A voice that starts to play the armed phrase.
    pub open spec fn started(self, attenuation: int) -> OkiVoice {
        let start = rom_address(self.rom, self.command * 8);
        let stop = rom_address(self.rom, self.command * 8 + 3);
        OkiVoiceSnap {
            playing: start < stop,
            position: (start * 2) as u32,
            stop: (stop * 2) as u32,
            signal: 0,
            step: 0,
            volume: volume_of(attenuation),
            phase: 0,
        }
    }

    /// Voice `v` is selected by the high nibble of a byte.
    pub open spec fn selects(data: u8, v: int) -> bool {
        if v == 0 {
            (data / 16) % 2 == 1
        } else if v == 1 {
            (data / 32) % 2 == 1
        } else if v == 2 {
            (data / 64) % 2 == 1
        } else {
            data / 128 == 1
        }
    }

    /// The player after a byte of a command.  With a phrase armed the byte starts the voices
    /// it selects, whatever its high bit; without one, a set high bit arms a phrase and a
    /// clear one silences the voices it selects.
    pub open spec fn commanded(self, data: u8) -> OkiView {
        if self.command >= 0 {
            OkiView {
                voices: Seq::new(
                    4,
                    |v: int|
                        if Self::selects(data, v) && self.rom.len() > 0 {
                            self.started((data % 16) as int)
                        } else {
                            self.voices[v]
                        },
                ),
                command: -1i32,
                ..self
            }
        } else if data >= 0x80 {
            OkiView { command: (data % 128) as i32, ..self }
        } else {
            OkiView {
                voices: Seq::new(
                    4,
                    |v: int|
                        if Self::selects(data, v) {
                            OkiVoiceSnap { playing: false, ..self.voices[v] }
                        } else {
                            self.voices[v]
                        },
                ),
                ..self
            }
        }
    }

    /// The four voices mixed into one output sample.
    pub open spec fn sample(self) -> int {
        voice_output(self.rom, self.rate, self.voices[0]) + voice_output(self.rom, self.rate, self.voices[1])
            + voice_output(self.rom, self.rate, self.voices[2]) + voice_output(
            self.rom,
            self.rate,
            self.voices[3],
        )
    }

    /// The voices after one output sample.
    pub open spec fn stepped(self) -> OkiView {
        OkiView {
            voices: Seq::new(4, |i: int| voice_after(self.rom, self.rate, self.voices[i])),
            ..self
        }
    }

    /// With an output sample appended; the oldest goes where the ring is full.
    pub open spec fn with_output(self, s: i32) -> OkiView {
        let kept = if self.ring.len() >= RING_CAP { self.ring.skip(1) } else { self.ring };
        OkiView { ring: kept.push(s), ..self }
    }

    /// The player `n` output samples later.
    pub open spec fn advanced(self, n: int) -> OkiView
        decreases n,
    {
        if n <= 0 {
            self
        } else {
            let before = self.advanced(n - 1);
            before.stepped().with_output(before.sample() as i32)
        }
    }
}

/// The ADPCM player.
pub struct Oki {
    pub rom: Vec<u8>,
    pub voices: Vec<OkiVoice>,
    pub command: i32,
    pub rate: u32,
    pub ring: VecDeque<i32>,
}

impl View for Oki {
    type V = OkiView;

    open spec fn view(&self) -> OkiView {
        OkiView {
            rom: self.rom@,
            voices: self.voices@,
            command: self.command,
            rate: self.rate,
            ring: self.ring@,
        }
    }
}

fn step_size(i: i32) -> (r: i32)
    requires
        0 <= i <= 48,
    ensures
        r == ADPCM_STEP_TABLE@[i as int],
        16 <= r <= 1552,
{
    let table = ADPCM_STEP_TABLE;
    table[i as usize]
}

impl Oki {
    /// A player with no samples.
    pub fn new() -> (r: Self)
        ensures
            r@ == OkiView::power_on(Seq::empty()),
            r@.wf(),
    {
        let voice = OkiVoiceSnap {
            playing: false,
            position: 0,
            stop: 0,
            signal: 0,
            step: 0,
            volume: 8,
            phase: 0,
        };
        let mut voices: Vec<OkiVoice> = Vec::new();
        voices.push(voice);
        voices.push(voice);
        voices.push(voice);
        voices.push(voice);
        let r = Oki { rom: Vec::new(), voices, command: -1, rate: 7575, ring: VecDeque::new() };
        assert(r@ =~= OkiView::power_on(Seq::empty()));
        r
    }

    fn read_byte(&self, addr: u32) -> (r: u8)
        ensures
            r == rom_byte(self@.rom, addr as int),
    {
        if (addr as usize) < self.rom.len() { self.rom[addr as usize] } else { 0 }
    }

    fn read_address(&self, addr: u32) -> (r: u32)
        requires
            addr < 0x1000,
        ensures
            r == rom_address(self@.rom, addr as int),
            r < 0x100_0000,
    {
        (self.read_byte(addr) as u32) * 65536 + (self.read_byte(addr + 1) as u32) * 256 + self.read_byte(
            addr + 2,
        ) as u32
    }

    /// Pin 7 selects the sample rate.
    pub fn set_pin7(&mut self, high: bool)
        ensures
            final(self)@ == (OkiView { rate: if high { 7575 } else { 6060 }, ..old(self)@ }),
    {
        self.rate = if high { 7575 } else { 6060 };
    }

    fn volume(attenuation: u8) -> (r: i32)
        ensures
            r == volume_of(attenuation as int),
            0 <= r <= 32,
    {
        match attenuation {
            0 => 32,
            1 => 27,
            2 => 22,
            3 => 18,
            4 => 14,
            5 => 11,
            6 => 8,
            7 => 6,
            _ => 4,
        }
    }

    fn selected(data: u8, v: usize) -> (r: bool)
        requires
            v < 4,
        ensures
            r == OkiView::selects(data, v as int),
    {
        match v {
            0 => (data / 16) % 2 == 1,
            1 => (data / 32) % 2 == 1,
            2 => (data / 64) % 2 == 1,
            _ => data / 128 == 1,
        }
    }

    /// Take one byte of the two-byte command protocol.
    pub fn write_command(&mut self, data: u8)
        requires
            old(self)@.wf(),
        ensures
            final(self)@ == old(self)@.commanded(data),
            final(self)@.wf(),
    {
        if self.command >= 0 {
            let base: u32 = self.command as u32 * 8;
            let start: u32 = self.read_address(base);
            let stop: u32 = self.read_address(base + 3);
            let started = OkiVoiceSnap {
                playing: start < stop,
                position: start * 2,
                stop: stop * 2,
                signal: 0,
                step: 0,
                volume: Self::volume(data % 16),
                phase: 0,
            };
            assert(started == old(self)@.started((data % 16) as int));
            let loaded = self.rom.len() > 0;
            let mut v: usize = 0;
            while v < 4
                invariant
                    v <= 4,
                    old(self)@.wf(),
                    loaded == (old(self)@.rom.len() > 0),
                    started == old(self)@.started((data % 16) as int),
                    started.wf(),
                    self@ == (OkiView { voices: self@.voices, ..old(self)@ }),
                    self@.voices.len() == 4,
                    forall|k: int|
                        0 <= k < 4 ==> #[trigger] self@.voices[k] == (if k < v && OkiView::selects(data, k)
                            && loaded {
                            started
                        } else {
                            old(self)@.voices[k]
                        }),
                decreases 4 - v,
            {
                if Self::selected(data, v) && loaded {
                    self.voices.set(v, started);
                }
                v = v + 1;
            }
            self.command = -1;
            assert(self@ =~= old(self)@.commanded(data));
        } else if data >= 0x80 {
            self.command = (data % 128) as i32;
        } else {
            let mut v: usize = 0;
            while v < 4
                invariant
                    v <= 4,
                    old(self)@.wf(),
                    self@ == (OkiView { voices: self@.voices, ..old(self)@ }),
                    self@.voices.len() == 4,
                    forall|k: int|
                        0 <= k < 4 ==> #[trigger] self@.voices[k] == (if k < v && OkiView::selects(data, k) {
                            OkiVoiceSnap { playing: false, ..old(self)@.voices[k] }
                        } else {
                            old(self)@.voices[k]
                        }),
                decreases 4 - v,
            {
                if Self::selected(data, v) {
                    let voice = OkiVoiceSnap { playing: false, ..self.voices[v] };
                    self.voices.set(v, voice);
                }
                v = v + 1;
            }
            assert(self@ =~= old(self)@.commanded(data));
        }
    }

    /// Decode one nibble.
    fn decode_nibble(voice: OkiVoice, nibble: u8) -> (r: OkiVoice)
        requires
            voice.wf(),
            nibble < 16,
        ensures
            r == decoded(voice, nibble as int),
            r.wf(),
    {
        let step: i32 = step_size(voice.step);
        let mut diff: i32 = step / 8;
        if nibble % 2 == 1 {
            diff = diff + step / 4;
        }
        if (nibble / 2) % 2 == 1 {
            diff = diff + step / 2;
        }
        if (nibble / 4) % 2 == 1 {
            diff = diff + step;
        }
        if nibble / 8 == 1 {
            diff = -diff;
        }
        assert(diff == delta(step as int, nibble as int));
        let signal: i32 = voice.signal + diff;
        let m: i32 = (nibble % 8) as i32;
        let index: i32 = voice.step + (if m < 4 { -1 } else { (m - 3) * 2 });
        OkiVoiceSnap {
            signal: if signal < -2048 { -2048 } else if signal > 2047 { 2047 } else { signal },
            step: if index < 0 { 0 } else if index > 48 { 48 } else { index },
            ..voice
        }
    }

    /// One voice, one output sample later, and what it adds to the sample.
    fn step_voice(&self, voice: OkiVoice) -> (r: (OkiVoice, i32))
        requires
            self@.wf(),
            voice.wf(),
        ensures
            r.0 == voice_after(self@.rom, self@.rate, voice),
            r.0.wf(),
            r.1 == voice_output(self@.rom, self@.rate, voice),
            -65536 <= r.1 <= 65536,
    {
        if !voice.playing {
            return (voice, 0);
        }
        let phase: u32 = voice.phase + self.rate;
        let after = if phase < OUTPUT_RATE {
            OkiVoiceSnap { phase, ..voice }
        } else if voice.position >= voice.stop {
            OkiVoiceSnap { playing: false, phase: phase - OUTPUT_RATE, ..voice }
        } else {
            let byte: u8 = self.read_byte(voice.position / 2);
            let nibble: u8 = if voice.position % 2 == 0 { byte / 16 } else { byte % 16 };
            let next = OkiVoiceSnap {
                position: voice.position + 1,
                phase: phase - OUTPUT_RATE,
                ..voice
            };
            Self::decode_nibble(next, nibble)
        };
        proof {
            assert(-65536 <= after.signal * after.volume <= 65536) by (nonlinear_arith)
                requires
                    -2048 <= after.signal <= 2047,
                    0 <= after.volume <= 32,
            ;
        }
        (after, after.signal * after.volume)
    }

    /// Produce one mixed output sample; full scale is 2048 * 32.
    pub fn next_sample(&mut self) -> (r: i32)
        requires
            old(self)@.wf(),
        ensures
            r == old(self)@.sample(),
            -262144 <= r <= 262144,
            final(self)@ == old(self)@.stepped(),
            final(self)@.wf(),
    {
        let v0 = self.voices[0];
        let v1 = self.voices[1];
        let v2 = self.voices[2];
        let v3 = self.voices[3];
        assert(v0 == self@.voices[0] && v1 == self@.voices[1] && v2 == self@.voices[2] && v3
            == self@.voices[3]);
        let (w0, a0) = self.step_voice(v0);
        let (w1, a1) = self.step_voice(v1);
        let (w2, a2) = self.step_voice(v2);
        let (w3, a3) = self.step_voice(v3);
        self.voices.set(0, w0);
        self.voices.set(1, w1);
        self.voices.set(2, w2);
        self.voices.set(3, w3);
        assert(self@ =~= old(self)@.stepped());
        a0 + a1 + a2 + a3
    }

    /// Clock the player for `n` output samples and keep them.
    pub fn advance(&mut self, n: usize)
        requires
            old(self)@.wf(),
        ensures
            final(self)@ == old(self)@.advanced(n as int),
            final(self)@.wf(),
    {
        let mut i: usize = 0;
        while i < n
            invariant
                i <= n,
                self@.wf(),
                self@ == old(self)@.advanced(i as int),
            decreases n - i,
        {
            let ghost before = self@;
            let s: i32 = self.next_sample();
            if self.ring.len() >= RING_CAP {
                let _ = self.ring.pop_front();
            }
            self.ring.push_back(s);
            assert(self@ =~= before.stepped().with_output(s));
            i = i + 1;
        }
    }

    /// Fetch the oldest kept sample; silence where there is none.
    pub fn pop_sample(&mut self) -> (r: i32)
        ensures
            old(self)@.ring.len() == 0 ==> r == 0 && final(self)@ == old(self)@,
            old(self)@.ring.len() > 0 ==> r == old(self)@.ring[0] && final(self)@ == (OkiView {
                ring: old(self)@.ring.skip(1),
                ..old(self)@
            }),
    {
        match self.ring.pop_front() {
            Some(s) => {
                assert(self@.ring =~= old(self)@.ring.skip(1));
                s
            },
            None => 0,
        }
    }

    /// Forget the samples that were not fetched.
    pub fn clear_ring(&mut self)
        ensures
            final(self)@ == (OkiView { ring: Seq::empty(), ..old(self)@ }),
    {
        self.ring.clear();
    }
}

// ── Laws ─────────────────────────────────────────────────────────────────────

/// After a phrase was armed, the next byte starts every voice that it selects, also the
/// fourth, whose bit is the one that arms a phrase otherwise; then nothing is armed.
pub proof fn armed_phrase_starts_selected_voices(o: OkiView, phrase: u8, data: u8, v: int)
    requires
        o.wf(),
        o.command == -1,
        o.rom.len() > 0,
        phrase >= 0x80,
        0 <= v < 4,
    ensures
        ({
            let armed = o.commanded(phrase);
            let played = armed.commanded(data);
            &&& armed.voices == o.voices
            &&& armed.command == phrase % 128
            &&& played.command == -1
            &&& OkiView::selects(data, v) ==> played.voices[v] == armed.started((data % 16) as int)
            &&& !OkiView::selects(data, v) ==> played.voices[v] == o.voices[v]
        }),
{
}

/// The samples that were fetched or not do not matter to what is played: the state without
/// them runs on the same.
pub proof fn output_does_not_matter(a: OkiView, b: OkiView, n: int)
    requires
        a.rom == b.rom,
        a.voices == b.voices,
        a.command == b.command,
        a.rate == b.rate,
    ensures
        a.advanced(n).rom == b.advanced(n).rom,
        a.advanced(n).voices == b.advanced(n).voices,
        a.advanced(n).command == b.advanced(n).command,
        a.advanced(n).rate == b.advanced(n).rate,
    decreases n,
{
    if n > 0 {
        output_does_not_matter(a, b, n - 1);
        assert(a.advanced(n).voices =~= b.advanced(n).voices);
    }
}

} // verus!
