//! The CPS1 sound board without its Z80 core and FM chip: memory map, banking, command
//! latch, ADPCM player and clocking.
//!
//! | Range       | Function                          |
//! |-------------|-----------------------------------|
//! | `0000-7FFF` | Sound ROM (fixed)                 |
//! | `8000-BFFF` | Sound ROM (banked)                |
//! | `D000-D7FF` | Work RAM                          |
//! | `F000-F001` | FM chip                           |
//! | `F002`      | ADPCM player                      |
//! | `F004`      | ROM bank select                   |
//! | `F006`      | ADPCM sample rate                 |
//! | `F008`      | Sound-command latch (read)        |

use crate::bytes::copied;
use crate::cps::oki::{output_does_not_matter, Oki, OkiView};
use crate::cps::save_state::{overlaid, overlay_bytes, OkiVoiceSnap, SoundSnap, SoundSnapView};
use vstd::prelude::*;

verus! {

/// Z80 cycles per video frame.
pub const CYCLES_PER_FRAME: u64 = 59_659;

/// Z80 cycles per native sample of the FM chip.
pub const CLOCKS_PER_CHIP_SAMPLE: u64 = 64;

/// Samples per video frame.
pub const SAMPLES_PER_FRAME: usize = 735;

/// Bytes of work RAM.
pub const RAM_BYTES: usize = 0x800;

/// What a memory read is answered with.
pub enum SoundRead {
    Value(u8),
    /// The FM chip's status.
    ChipStatus,
}

/// A write that goes to the FM chip.
pub enum ChipWrite {
    /// Select a register.
    Address(u8),
    /// Write the selected register.
    Data(u8),
}

/// What a [`CpsSound`] holds.
#[verifier::ext_equal]
pub struct SoundView {
    pub rom: Seq<u8>,
    pub ram: Seq<u8>,
    pub bank: int,
    pub oki: OkiView,
    pub soundlatch: u8,
}

impl SoundView {
    pub open spec fn wf(self) -> bool {
        &&& self.ram.len() == RAM_BYTES
        &&& 0 <= self.bank < 16
        &&& self.oki.wf()
    }

    /// A byte of the sound ROM; all ones beyond its end.
    pub open spec fn rom_byte(self, i: int) -> u8 {
        if 0 <= i < self.rom.len() { self.rom[i] } else { 0xff }
    }

    /// What a memory read gives.
    pub open spec fn read(self, addr: u16) -> SoundRead {
        if addr <= 0x7fff {
            SoundRead::Value(self.rom_byte(addr as int))
        } else if addr <= 0xbfff {
            SoundRead::Value(self.rom_byte(0x8000 + self.bank * 0x4000 + (addr - 0x8000)))
        } else if 0xd000 <= addr <= 0xd7ff {
            SoundRead::Value(self.ram[addr - 0xd000])
        } else if 0xf000 <= addr <= 0xf001 {
            SoundRead::ChipStatus
        } else if addr == 0xf002 {
            SoundRead::Value(0)
        } else if addr == 0xf008 {
            SoundRead::Value(self.soundlatch)
        } else {
            SoundRead::Value(0xff)
        }
    }

    /// What a memory write does to the board.
    pub open spec fn written(self, addr: u16, val: u8) -> SoundView {
        if 0xd000 <= addr <= 0xd7ff {
            SoundView { ram: self.ram.update(addr - 0xd000, val), ..self }
        } else if addr == 0xf002 {
            SoundView { oki: self.oki.commanded(val), ..self }
        } else if addr == 0xf004 {
            SoundView { bank: (val % 16) as int, ..self }
        } else if addr == 0xf006 {
            SoundView {
                oki: OkiView { rate: if val % 2 == 1 { 7575 } else { 6060 }, ..self.oki },
                ..self
            }
        } else {
            self
        }
    }

    /// The board after power-on.
    pub open spec fn power_on() -> SoundView {
        SoundView {
            rom: Seq::empty(),
            ram: Seq::new(RAM_BYTES as nat, |i: int| 0u8),
            bank: 0,
            oki: OkiView::power_on(Seq::empty()),
            soundlatch: 0,
        }
    }

    /// The board after a reset; ROMs and the command latch stay.
    pub open spec fn after_reset(self) -> SoundView {
        SoundView {
            ram: Seq::new(RAM_BYTES as nat, |i: int| 0u8),
            bank: 0,
            oki: OkiView::power_on(self.oki.rom),
            ..self
        }
    }

    /// The snapshot of the mutable state.
    pub open spec fn snap(self) -> SoundSnapView {
        SoundSnapView {
            ram: self.ram,
            bank: self.bank as u32,
            soundlatch: self.soundlatch,
            oki_voices: self.oki.voices,
            oki_command: self.oki.command,
            oki_rate: self.oki.rate,
        }
    }

    /// The board restored from a snapshot: ROMs stay, kept output is forgotten.
    pub open spec fn restored(self, s: SoundSnapView) -> SoundView {
        SoundView {
            rom: self.rom,
            ram: overlaid(self.ram, s.ram),
            bank: s.bank as int,
            oki: OkiView {
                rom: self.oki.rom,
                voices: overlaid(self.oki.voices, s.oki_voices),
                command: s.oki_command,
                rate: s.oki_rate,
                ring: Seq::empty(),
            },
            soundlatch: s.soundlatch,
        }
    }
}

/// Clocking of one frame: Z80 cycles run, and those not yet handed to the FM chip.
pub struct FrameClock {
    pub ran: u64,
    pub pending: u64,
}

impl FrameClock {
    pub fn new() -> (r: Self)
        ensures
            r.ran == 0,
            r.pending == 0,
    {
        FrameClock { ran: 0, pending: 0 }
    }

    /// Whether the frame has cycles left to run.
    pub fn unfinished(&self) -> (r: bool)
        ensures
            r == (self.ran < CYCLES_PER_FRAME),
    {
        self.ran < CYCLES_PER_FRAME
    }

    /// Account for an instruction; returns how many samples the FM chip advances by.
    pub fn after(&mut self, elapsed: u64) -> (r: u64)
        requires
            old(self).ran + elapsed <= u64::MAX,
            old(self).pending + elapsed <= u64::MAX,
        ensures
            final(self).ran == old(self).ran + elapsed,
            r == (old(self).pending + elapsed) / CLOCKS_PER_CHIP_SAMPLE as int,
            final(self).pending == (old(self).pending + elapsed) % CLOCKS_PER_CHIP_SAMPLE as int,
    {
        self.ran = self.ran + elapsed;
        let total: u64 = self.pending + elapsed;
        self.pending = total % CLOCKS_PER_CHIP_SAMPLE;
        total / CLOCKS_PER_CHIP_SAMPLE
    }
}

/// The sound board.
pub struct CpsSound {
    rom: Vec<u8>,
    ram: Vec<u8>,
    bank: usize,
    oki: Oki,
    soundlatch: u8,
}

impl View for CpsSound {
    type V = SoundView;

    closed spec fn view(&self) -> SoundView {
        SoundView {
            rom: self.rom@,
            ram: self.ram@,
            bank: self.bank as int,
            oki: self.oki@,
            soundlatch: self.soundlatch,
        }
    }
}

impl CpsSound {
    pub fn new() -> (r: Self)
        ensures
            r@ == SoundView::power_on(),
            r@.wf(),
    {
        let r = CpsSound {
            rom: Vec::new(),
            ram: vec![0u8; RAM_BYTES],
            bank: 0,
            oki: Oki::new(),
            soundlatch: 0,
        };
        assert(r@ =~= SoundView::power_on());
        r
    }

    /// Take the sound program; the Z80 is reset beside.
    pub fn load_z80_rom(&mut self, rom: &[u8])
        ensures
            final(self)@ == (SoundView { rom: rom@, ..old(self)@ }),
    {
        self.rom = copied(rom);
    }

    /// Take the ADPCM samples.
    pub fn load_oki_rom(&mut self, rom: &[u8])
        ensures
            final(self)@ == (SoundView { oki: OkiView { rom: rom@, ..old(self)@.oki }, ..old(self)@ }),
    {
        self.oki.rom = copied(rom);
    }

    /// Reset the board; the Z80 and the FM chip are reset beside.
    pub fn reset(&mut self)
        ensures
            final(self)@ == old(self)@.after_reset(),
            final(self)@.wf(),
    {
        self.ram = vec![0u8; RAM_BYTES];
        self.bank = 0;
        let mut fresh = Oki::new();
        fresh.rom = copied(self.oki.rom.as_slice());
        self.oki = fresh;
        assert(self@ =~= old(self)@.after_reset());
    }

    /// Latch a command of the main CPU.
    pub fn set_latch(&mut self, value: u8)
        ensures
            final(self)@ == (SoundView { soundlatch: value, ..old(self)@ }),
    {
        self.soundlatch = value;
    }

    fn rom_byte(&self, i: usize) -> (r: u8)
        ensures
            r == self@.rom_byte(i as int),
    {
        if i < self.rom.len() { self.rom[i] } else { 0xff }
    }

    /// Answer a memory read of the Z80.
    pub fn read_mem(&self, addr: u16) -> (r: SoundRead)
        requires
            self@.wf(),
        ensures
            r == self@.read(addr),
    {
        if addr <= 0x7fff {
            SoundRead::Value(self.rom_byte(addr as usize))
        } else if addr <= 0xbfff {
            SoundRead::Value(self.rom_byte(0x8000 + self.bank * 0x4000 + (addr as usize - 0x8000)))
        } else if 0xd000 <= addr && addr <= 0xd7ff {
            SoundRead::Value(self.ram[(addr - 0xd000) as usize])
        } else if 0xf000 <= addr && addr <= 0xf001 {
            SoundRead::ChipStatus
        } else if addr == 0xf002 {
            SoundRead::Value(0)
        } else if addr == 0xf008 {
            SoundRead::Value(self.soundlatch)
        } else {
            SoundRead::Value(0xff)
        }
    }

    /// Take a memory write of the Z80; returns what goes to the FM chip.
    pub fn write_mem(&mut self, addr: u16, val: u8) -> (r: Option<ChipWrite>)
        requires
            old(self)@.wf(),
        ensures
            final(self)@ == old(self)@.written(addr, val),
            final(self)@.wf(),
            r == (if addr == 0xf000 {
                Some(ChipWrite::Address(val))
            } else if addr == 0xf001 {
                Some(ChipWrite::Data(val))
            } else {
                None
            }),
    {
        if 0xd000 <= addr && addr <= 0xd7ff {
            self.ram.set((addr - 0xd000) as usize, val);
        } else if addr == 0xf000 {
            return Some(ChipWrite::Address(val));
        } else if addr == 0xf001 {
            return Some(ChipWrite::Data(val));
        } else if addr == 0xf002 {
            self.oki.write_command(val);
        } else if addr == 0xf004 {
            self.bank = (val % 16) as usize;
        } else if addr == 0xf006 {
            self.oki.set_pin7(val % 2 == 1);
        }
        None
    }

    /// After the Z80 and the FM chip have run a frame, clock the ADPCM player for it.  Every
    /// frame does this, shown or not, so that its state depends on the frame alone.
    pub fn run_frame(&mut self)
        requires
            old(self)@.wf(),
        ensures
            final(self)@ == (SoundView {
                oki: old(self)@.oki.advanced(SAMPLES_PER_FRAME as int),
                ..old(self)@
            }),
            final(self)@.wf(),
    {
        self.oki.advance(SAMPLES_PER_FRAME);
    }

    /// Fetch `n` ADPCM samples, silence after the last kept one.
    pub fn generate(&mut self, n: usize) -> (r: Vec<i32>)
        ensures
            r@ == Seq::new(
                n as nat,
                |i: int| if i < old(self)@.oki.ring.len() { old(self)@.oki.ring[i] } else { 0 },
            ),
            final(self)@ == (SoundView {
                oki: OkiView {
                    ring: old(self)@.oki.ring.skip(
                        if n <= old(self)@.oki.ring.len() { n as int } else { old(self)@.oki.ring.len() as int },
                    ),
                    ..old(self)@.oki
                },
                ..old(self)@
            }),
    {
        let mut r: Vec<i32> = Vec::new();
        let ghost ring = self@.oki.ring;
        assert(ring.skip(0) =~= ring);
        let mut i: usize = 0;
        while i < n
            invariant
                i <= n,
                ring == old(self)@.oki.ring,
                r@ == Seq::new(i as nat, |k: int| if k < ring.len() { ring[k] } else { 0 }),
                self@ == (SoundView {
                    oki: OkiView {
                        ring: ring.skip(if i <= ring.len() { i as int } else { ring.len() as int }),
                        ..old(self)@.oki
                    },
                    ..old(self)@
                }),
            decreases n - i,
        {
            let ghost left = self@.oki.ring;
            let s: i32 = self.oki.pop_sample();
            r.push(s);
            assert(r@ =~= Seq::new((i + 1) as nat, |k: int| if k < ring.len() { ring[k] } else { 0 }));
            assert(i < ring.len() ==> left.skip(1) =~= ring.skip(i + 1));
            i = i + 1;
        }
        r
    }

    /// The mutable state, with the serialised registers of the Z80 and the FM chip's state;
    /// ROMs are not part of it.
    pub fn snapshot(&self, z80_bytes: Vec<u8>, ym_bytes: Vec<u8>) -> (r: SoundSnap)
        requires
            self@.wf(),
        ensures
            r@ == self@.snap(),
            r.z80_bytes@ == z80_bytes@,
            r.ym_bytes@ == ym_bytes@,
            r@.wf(),
    {
        let mut voices: Vec<OkiVoiceSnap> = Vec::new();
        let mut i: usize = 0;
        while i < self.oki.voices.len()
            invariant
                i <= self.oki.voices@.len(),
                voices@ == self.oki.voices@.take(i as int),
            decreases self.oki.voices@.len() - i,
        {
            voices.push(self.oki.voices[i]);
            assert(voices@ =~= self.oki.voices@.take(i + 1));
            i = i + 1;
        }
        assert(self.oki.voices@.take(i as int) =~= self.oki.voices@);
        SoundSnap {
            z80_bytes,
            ram: copied(self.ram.as_slice()),
            bank: self.bank as u32,
            soundlatch: self.soundlatch,
            oki_voices: voices,
            oki_command: self.oki.command,
            oki_rate: self.oki.rate,
            ym_bytes,
        }
    }

    /// Restore the mutable state.
    pub fn restore(&mut self, snap: &SoundSnap)
        ensures
            final(self)@ == old(self)@.restored(snap@),
            old(self)@.wf() && snap@.wf() ==> final(self)@.wf(),
    {
        overlay_bytes(&mut self.ram, &snap.ram);
        self.bank = snap.bank as usize;
        self.soundlatch = snap.soundlatch;
        let mut i: usize = 0;
        while i < self.oki.voices.len() && i < snap.oki_voices.len()
            invariant
                self@.oki == (OkiView { voices: self@.oki.voices, ..old(self)@.oki }),
                self@.oki.voices == self.oki.voices@,
                self@ == (SoundView {
                    rom: old(self)@.rom,
                    ram: overlaid(old(self)@.ram, snap@.ram),
                    bank: snap@.bank as int,
                    oki: self@.oki,
                    soundlatch: snap@.soundlatch,
                }),
                self@.oki.voices.len() == old(self)@.oki.voices.len(),
                i <= self@.oki.voices.len(),
                i <= snap@.oki_voices.len(),
                forall|k: int|
                    0 <= k < self@.oki.voices.len() ==> #[trigger] self@.oki.voices[k] == (if k < i {
                        snap@.oki_voices[k]
                    } else {
                        old(self)@.oki.voices[k]
                    }),
            decreases self@.oki.voices.len() - i,
        {
            self.oki.voices.set(i, snap.oki_voices[i]);
            i = i + 1;
        }
        assert(self@.oki.voices =~= overlaid(old(self)@.oki.voices, snap@.oki_voices));
        self.oki.command = snap.oki_command;
        self.oki.rate = snap.oki_rate;
        self.oki.clear_ring();
    }
}

// ── Laws ─────────────────────────────────────────────────────────────────────

/// A byte written to work RAM reads back, and the rest of the map stays.
pub proof fn sound_ram_write_then_read(s: SoundView, addr: u16, val: u8, other: u16)
    requires
        s.wf(),
        0xd000 <= addr <= 0xd7ff,
    ensures
        s.written(addr, val).read(addr) == SoundRead::Value(val),
        other != addr ==> s.written(addr, val).read(other) == s.read(other),
{
}

/// Restoring a snapshot brings back everything it was taken of but the kept output, and the
/// board then plays on as it did.
pub proof fn sound_snapshot_restores(s: SoundView, later: SoundView, n: int)
    requires
        s.wf(),
        later.wf(),
        later.rom == s.rom,
        later.oki.rom == s.oki.rom,
    ensures
        later.restored(s.snap()) == (SoundView {
            oki: OkiView { ring: Seq::empty(), ..s.oki },
            ..s
        }),
        later.restored(s.snap()).oki.advanced(n).voices == s.oki.advanced(n).voices,
{
    assert(later.restored(s.snap()) =~= (SoundView {
        oki: OkiView { ring: Seq::empty(), ..s.oki },
        ..s
    }));
    output_does_not_matter(later.restored(s.snap()).oki, s.oki, n);
}

/// No clock is lost between instructions: two of them advance the FM chip as one of their
/// joint length does.
pub proof fn chip_clock_is_exact(pending: int, first: int, second: int)
    requires
        0 <= pending < 64,
        0 <= first,
        0 <= second,
    ensures
        (pending + first) / 64 + ((pending + first) % 64 + second) / 64 == (pending + first + second) / 64,
        ((pending + first) % 64 + second) % 64 == (pending + first + second) % 64,
{
}

} // verus!
