//! Snapshots of the CPS1 boards at a frame boundary.  ROM images are not part of them.

use crate::save_state::M68kSnapshot;
use vstd::prelude::*;

verus! {

/// Current save-state format version.
pub const CPS_SAVE_VERSION: u32 = 1;

/// One voice of the ADPCM player.
#[derive(Clone, Copy)]
pub struct OkiVoiceSnap {
    pub playing: bool,
    pub position: u32,
    pub stop: u32,
    pub signal: i32,
    pub step: i32,
    pub volume: i32,
    pub phase: u32,
}

impl OkiVoiceSnap {
    /// The decoder's fields lie in the ranges that playing keeps them in.
    pub open spec fn wf(self) -> bool {
        &&& -2048 <= self.signal <= 2047
        &&& 0 <= self.step <= 48
        &&& 0 <= self.volume <= 32
        &&& self.phase < 44_100
    }
}

/// Snapshot of the sound board: Z80, ADPCM player and FM chip.
pub struct SoundSnap {
    /// The Z80's serialised registers.
    pub z80_bytes: Vec<u8>,
    /// Work RAM at D000-D7FF.
    pub ram: Vec<u8>,
    /// ROM bank at 8000-BFFF.
    pub bank: u32,
    /// Latched sound command.
    pub soundlatch: u8,
    pub oki_voices: Vec<OkiVoiceSnap>,
    /// Phrase that waits for its second byte; -1 where none does.
    pub oki_command: i32,
    /// Sample rate of the ADPCM player.
    pub oki_rate: u32,
    /// The FM chip's own state.
    pub ym_bytes: Vec<u8>,
}

/// What a [`SoundSnap`] says of the board, beside the Z80 and the FM chip.
#[verifier::ext_equal]
pub struct SoundSnapView {
    pub ram: Seq<u8>,
    pub bank: u32,
    pub soundlatch: u8,
    pub oki_voices: Seq<OkiVoiceSnap>,
    pub oki_command: i32,
    pub oki_rate: u32,
}

impl View for SoundSnap {
    type V = SoundSnapView;

    open spec fn view(&self) -> SoundSnapView {
        SoundSnapView {
            ram: self.ram@,
            bank: self.bank,
            soundlatch: self.soundlatch,
            oki_voices: self.oki_voices@,
            oki_command: self.oki_command,
            oki_rate: self.oki_rate,
        }
    }
}

impl SoundSnapView {
    /// Every field is one that a running board can have.
    pub open spec fn wf(self) -> bool {
        &&& self.bank < 16
        &&& -1 <= self.oki_command < 128
        &&& self.oki_rate == 7575 || self.oki_rate == 6060
        &&& forall|i: int| 0 <= i < self.oki_voices.len() ==> (#[trigger] self.oki_voices[i]).wf()
    }
}

impl SoundSnap {
    /// Whether every field is one that a running board can have.
    pub fn is_valid(&self) -> (r: bool)
        ensures
            r == self@.wf(),
    {
        if self.bank >= 16 || self.oki_command < -1 || self.oki_command >= 128 || !(self.oki_rate == 7575
            || self.oki_rate == 6060) {
            return false;
        }
        let mut i: usize = 0;
        while i < self.oki_voices.len()
            invariant
                i <= self.oki_voices@.len(),
                forall|k: int| 0 <= k < i ==> (#[trigger] self.oki_voices@[k]).wf(),
            decreases self.oki_voices@.len() - i,
        {
            let v = self.oki_voices[i];
            if v.signal < -2048 || v.signal > 2047 || v.step < 0 || v.step > 48 || v.volume < 0
                || v.volume > 32 || v.phase >= 44_100 {
                assert(!self@.oki_voices[i as int].wf());
                return false;
            }
            i = i + 1;
        }
        true
    }
}

/// Snapshot of the main CPU's bus.
pub struct BusSnap {
    pub work_ram: Vec<u8>,
    pub gfxram: Vec<u16>,
    pub cps_a: Vec<u16>,
    pub cps_b: Vec<u16>,
    pub in0: u8,
    pub in1: u16,
    pub in2: u16,
    pub dswa: u8,
    pub dswb: u8,
    pub dswc: u8,
    pub sound_latch: u8,
    pub sound_latch2: u8,
    pub sound_latch_pending: bool,
    pub irq_pending: u8,
}

/// What a [`BusSnap`] holds.
#[verifier::ext_equal]
pub struct BusSnapView {
    pub work_ram: Seq<u8>,
    pub gfxram: Seq<u16>,
    pub cps_a: Seq<u16>,
    pub cps_b: Seq<u16>,
    pub in0: u8,
    pub in1: u16,
    pub in2: u16,
    pub dswa: u8,
    pub dswb: u8,
    pub dswc: u8,
    pub sound_latch: u8,
    pub sound_latch2: u8,
    pub sound_latch_pending: bool,
    pub irq_pending: u8,
}

impl View for BusSnap {
    type V = BusSnapView;

    open spec fn view(&self) -> BusSnapView {
        BusSnapView {
            work_ram: self.work_ram@,
            gfxram: self.gfxram@,
            cps_a: self.cps_a@,
            cps_b: self.cps_b@,
            in0: self.in0,
            in1: self.in1,
            in2: self.in2,
            dswa: self.dswa,
            dswb: self.dswb,
            dswc: self.dswc,
            sound_latch: self.sound_latch,
            sound_latch2: self.sound_latch2,
            sound_latch_pending: self.sound_latch_pending,
            irq_pending: self.irq_pending,
        }
    }
}

/// A CPS1 save state.
pub struct CpsSaveState {
    pub version: u32,
    pub cpu: M68kSnapshot,
    pub bus: BusSnap,
    pub sound: SoundSnap,
    /// The latched sprite table.
    pub buffered_obj: Vec<u16>,
    pub frame: u64,
    pub audio_total: u64,
}

/// `base` with its first elements replaced by those of `top`, as far as both reach.
pub open spec fn overlaid<T>(base: Seq<T>, top: Seq<T>) -> Seq<T> {
    Seq::new(base.len(), |i: int| if i < top.len() { top[i] } else { base[i] })
}

/// Replace the first bytes.
pub fn overlay_bytes(base: &mut Vec<u8>, top: &Vec<u8>)
    ensures
        final(base)@ == overlaid(old(base)@, top@),
{
    let mut i: usize = 0;
    while i < base.len() && i < top.len()
        invariant
            base@.len() == old(base)@.len(),
            i <= base@.len(),
            i <= top@.len(),
            forall|k: int| 0 <= k < base@.len() ==> base@[k] == (if k < i { top@[k] } else { old(base)@[k] }),
        decreases base@.len() - i,
    {
        base.set(i, top[i]);
        i = i + 1;
    }
    assert(base@ =~= overlaid(old(base)@, top@));
}

/// Replace the first words.
pub fn overlay_words(base: &mut Vec<u16>, top: &[u16])
    ensures
        final(base)@ == overlaid(old(base)@, top@),
{
    let mut i: usize = 0;
    while i < base.len() && i < top.len()
        invariant
            base@.len() == old(base)@.len(),
            i <= base@.len(),
            i <= top@.len(),
            forall|k: int| 0 <= k < base@.len() ==> base@[k] == (if k < i { top@[k] } else { old(base)@[k] }),
        decreases base@.len() - i,
    {
        base.set(i, top[i]);
        i = i + 1;
    }
    assert(base@ =~= overlaid(old(base)@, top@));
}

/// A copy of words.
pub fn copied_words(data: &[u16]) -> (r: Vec<u16>)
    ensures
        r@ == data@,
{
    let mut r: Vec<u16> = Vec::new();
    let mut i: usize = 0;
    while i < data.len()
        invariant
            i <= data@.len(),
            r@ == data@.take(i as int),
        decreases data@.len() - i,
    {
        r.push(data[i]);
        assert(r@ =~= data@.take(i + 1));
        i = i + 1;
    }
    assert(data@.take(data@.len() as int) =~= data@);
    r
}

} // verus!
