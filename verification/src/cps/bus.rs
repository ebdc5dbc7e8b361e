//! The 68000 address bus of the CPS1 A-board: program ROM, work RAM, graphics RAM, the
//! register files of the CPS-A and CPS-B chips, input ports and sound latches.

use crate::bits::{halves, low_bits_are_remainders};
use crate::bytes::be16;
use crate::cps::config::CpsGame;
use crate::cps::save_state::{
    copied_words, overlaid, overlay_bytes, overlay_words, BusSnap, BusSnapView,
};
use vstd::prelude::*;

verus! {

/// Words of graphics RAM (0x900000-0x92ffff).
pub const GFXRAM_WORDS: usize = 0x18000;

/// Bytes of work RAM (0xff0000-0xffffff).
pub const WORKRAM_BYTES: usize = 0x10000;

/// Words of a chip's register window.
pub const CPS_REG_WORDS: usize = 0x20;

/// The main CPU's bus.
pub struct CpsBus {
    /// Program ROM, big-endian.
    pub program: Vec<u8>,
    pub work_ram: Vec<u8>,
    pub gfxram: Vec<u16>,
    pub cps_a: Vec<u16>,
    pub cps_b: Vec<u16>,
    pub game: CpsGame,
    /// Coins, start and service, active low.
    pub in0: u8,
    /// Players 1 (low byte) and 2 (high byte), active low.
    pub in1: u16,
    /// Extra buttons, active low.
    pub in2: u16,
    pub dswa: u8,
    pub dswb: u8,
    pub dswc: u8,
    pub sound_latch: u8,
    pub sound_latch2: u8,
    /// A sound command was written and not yet handed on.
    pub sound_latch_pending: bool,
    /// Held interrupt lines: bit 0 V-blank (level 2), bit 1 raster (level 4).
    pub irq_pending: u8,
}

/// What a [`CpsBus`] holds.
#[verifier::ext_equal]
pub struct CpsBusView {
    pub program: Seq<u8>,
    pub work_ram: Seq<u8>,
    pub gfxram: Seq<u16>,
    pub cps_a: Seq<u16>,
    pub cps_b: Seq<u16>,
    pub game: CpsGame,
    pub in0: u8,
    pub in1: u16,
    pub in2: u16,
    pub dswa: u8,
    pub dswb: u8,
    pub dswc: u8,
    pub sound_latch: u8,
    pub sound_latch2: u8,
    pub sound_latch_pending: bool,
    pub irq_pending: u8,
}

impl View for CpsBus {
    type V = CpsBusView;

    open spec fn view(&self) -> CpsBusView {
        CpsBusView {
            program: self.program@,
            work_ram: self.work_ram@,
            gfxram: self.gfxram@,
            cps_a: self.cps_a@,
            cps_b: self.cps_b@,
            game: self.game,
            in0: self.in0,
            in1: self.in1,
            in2: self.in2,
            dswa: self.dswa,
            dswb: self.dswb,
            dswc: self.dswc,
            sound_latch: self.sound_latch,
            sound_latch2: self.sound_latch2,
            sound_latch_pending: self.sound_latch_pending,
            irq_pending: self.irq_pending,
        }
    }
}

impl CpsBusView {
    /// A bus after power-on, without a program.
    pub open spec fn power_on(game: CpsGame) -> CpsBusView {
        CpsBusView {
            program: Seq::empty(),
            work_ram: Seq::new(WORKRAM_BYTES as nat, |i: int| 0u8),
            gfxram: Seq::new(GFXRAM_WORDS as nat, |i: int| 0u16),
            cps_a: Seq::new(CPS_REG_WORDS as nat, |i: int| 0u16),
            cps_b: Seq::new(CPS_REG_WORDS as nat, |i: int| 0u16),
            game,
            in0: 0xff,
            in1: 0xffff,
            in2: 0xffff,
            dswa: 0xff,
            dswb: 0xff,
            dswc: 0xff,
            sound_latch: 0,
            sound_latch2: 0,
            sound_latch_pending: false,
            irq_pending: 0,
        }
    }

    /// Memories have their sizes and the configuration is sound.
    pub open spec fn wf(self) -> bool {
        &&& self.work_ram.len() == WORKRAM_BYTES
        &&& self.gfxram.len() == GFXRAM_WORDS
        &&& self.cps_a.len() == CPS_REG_WORDS
        &&& self.cps_b.len() == CPS_REG_WORDS
        &&& self.game.wf()
    }

    /// A word of graphics RAM; 0 beyond its end.
    pub open spec fn gfx_word(self, i: int) -> u16 {
        if 0 <= i < self.gfxram.len() { self.gfxram[i] } else { 0 }
    }

    /// A word of program ROM; all ones beyond its end.
    pub open spec fn rom_word(self, addr: int) -> u16 {
        if addr + 1 < self.program.len() {
            be16(self.program[addr], self.program[addr + 1])
        } else {
            0xffff
        }
    }

    /// Product of the two factor registers of the multiply protection.
    pub open spec fn product(self) -> u32 {
        (self.cps_b[self.game.cpsb.mult_factor1 / 2] as u32).wrapping_mul(
            self.cps_b[self.game.cpsb.mult_factor2 / 2] as u32,
        )
    }

    /// A CPS-B register: the self-test value, the multiplier's result, an extra input port,
    /// or what was last written.
    pub open spec fn cps_b_value(self, off: int) -> u16 {
        let cfg = self.game.cpsb;
        if cfg.cpsb_addr >= 0 && off == cfg.cpsb_addr / 2 && cfg.cpsb_value >= 0 {
            cfg.cpsb_value as u16
        } else if cfg.mult_result_lo >= 0 && off == cfg.mult_result_lo / 2 {
            (self.product() & 0xffff) as u16
        } else if cfg.mult_result_hi >= 0 && off == cfg.mult_result_hi / 2 {
            (self.product() >> 16) as u16
        } else if self.game.in2_addr != 0 && off == self.game.in2_addr / 2 {
            self.in2
        } else if self.game.in3_addr != 0 && off == self.game.in3_addr / 2 {
            0xffff
        } else {
            self.cps_b[off % 0x20]
        }
    }

    /// System inputs and DIP switches, in the high byte.
    pub open spec fn dsw_value(self, off: int) -> u16 {
        let v = if off == 0 {
            self.in0
        } else if off == 1 {
            self.dswa
        } else if off == 2 {
            self.dswb
        } else {
            self.dswc
        };
        ((v as u16) << 8) | 0x00ff
    }

    /// Byte offset in work RAM of the word that holds an address.
    pub open spec fn work_offset(addr: u32) -> int {
        (addr - 0xff0000) - (addr - 0xff0000) % 2
    }

    /// What a word read gives.
    pub open spec fn read16(self, addr: u32) -> u16 {
        if addr <= 0x3fffff {
            self.rom_word(addr as int)
        } else if 0x800000 <= addr <= 0x800001 {
            self.in1
        } else if 0x800018 <= addr <= 0x80001f {
            self.dsw_value((addr - 0x800018) / 2)
        } else if 0x800140 <= addr <= 0x80017f {
            self.cps_b_value((addr - 0x800140) / 2)
        } else if 0x900000 <= addr <= 0x92ffff {
            self.gfxram[(addr - 0x900000) / 2]
        } else if 0xff0000 <= addr <= 0xffffff {
            let i = Self::work_offset(addr);
            be16(self.work_ram[i], self.work_ram[i + 1])
        } else {
            0xffff
        }
    }

    /// What a word write does.
    pub open spec fn write16(self, addr: u32, val: u16) -> CpsBusView {
        if 0x800100 <= addr <= 0x80013f {
            CpsBusView { cps_a: self.cps_a.update((addr - 0x800100) / 2, val), ..self }
        } else if 0x800140 <= addr <= 0x80017f {
            CpsBusView { cps_b: self.cps_b.update((addr - 0x800140) / 2, val), ..self }
        } else if 0x800180 <= addr <= 0x800187 {
            CpsBusView { sound_latch: val as u8, sound_latch_pending: true, ..self }
        } else if 0x800188 <= addr <= 0x80018f {
            CpsBusView { sound_latch2: val as u8, ..self }
        } else if 0x900000 <= addr <= 0x92ffff {
            CpsBusView { gfxram: self.gfxram.update((addr - 0x900000) / 2, val), ..self }
        } else if 0xff0000 <= addr <= 0xffffff {
            let i = Self::work_offset(addr);
            CpsBusView {
                work_ram: self.work_ram.update(i, (val >> 8) as u8).update(i + 1, val as u8),
                ..self
            }
        } else {
            self
        }
    }

    /// What a byte read gives.
    pub open spec fn read8(self, addr: u32) -> u8 {
        let w = self.read16((addr - addr % 2) as u32);
        if addr % 2 == 0 { (w >> 8) as u8 } else { w as u8 }
    }

    /// What a byte write does: the word that holds it is read, changed and written.
    pub open spec fn write8(self, addr: u32, val: u8) -> CpsBusView {
        let even = (addr - addr % 2) as u32;
        let w = self.read16(even);
        self.write16(
            even,
            if addr % 2 == 0 { (w & 0x00ff) | ((val as u16) << 8) } else { (w & 0xff00) | val as u16 },
        )
    }

    /// What a long read gives: two words, the high one first.
    pub open spec fn read32(self, addr: u32) -> u32 {
        ((self.read16(addr) as u32) << 16) | self.read16((addr + 2) as u32) as u32
    }

    /// What a long write does.
    pub open spec fn write32(self, addr: u32, val: u32) -> CpsBusView {
        self.write16(addr, (val >> 16) as u16).write16((addr + 2) as u32, val as u16)
    }

    /// Word offset in graphics RAM that a CPS-A base register points at, aligned down to
    /// `boundary` bytes.
    pub open spec fn base(self, reg: int, boundary: u32) -> int {
        ((((self.cps_a[reg] * 256) as u32 & !((boundary - 1) as u32)) & 0x3ffff) / 2) as int
    }

    /// The snapshot of the mutable state.
    pub open spec fn snap(self) -> BusSnapView {
        BusSnapView {
            work_ram: self.work_ram,
            gfxram: self.gfxram,
            cps_a: self.cps_a,
            cps_b: self.cps_b,
            in0: self.in0,
            in1: self.in1,
            in2: self.in2,
            dswa: self.dswa,
            dswb: self.dswb,
            dswc: self.dswc,
            sound_latch: self.sound_latch,
            sound_latch2: self.sound_latch2,
            sound_latch_pending: self.sound_latch_pending,
            irq_pending: self.irq_pending,
        }
    }

    /// The bus restored from a snapshot.
    pub open spec fn restored(self, s: BusSnapView) -> CpsBusView {
        CpsBusView {
            program: self.program,
            work_ram: overlaid(self.work_ram, s.work_ram),
            gfxram: overlaid(self.gfxram, s.gfxram),
            cps_a: overlaid(self.cps_a, s.cps_a),
            cps_b: overlaid(self.cps_b, s.cps_b),
            game: self.game,
            in0: s.in0,
            in1: s.in1,
            in2: s.in2,
            dswa: s.dswa,
            dswb: s.dswb,
            dswc: s.dswc,
            sound_latch: s.sound_latch,
            sound_latch2: s.sound_latch2,
            sound_latch_pending: s.sound_latch_pending,
            irq_pending: s.irq_pending,
        }
    }
}

impl CpsBus {
    pub fn new(game: CpsGame) -> (r: Self)
        ensures
            r@ == CpsBusView::power_on(game),
            game.wf() ==> r@.wf(),
    {
        let work_ram: Vec<u8> = vec![0u8; WORKRAM_BYTES];
        let gfxram: Vec<u16> = vec![0u16; GFXRAM_WORDS];
        let cps_a: Vec<u16> = vec![0u16; CPS_REG_WORDS];
        let cps_b: Vec<u16> = vec![0u16; CPS_REG_WORDS];
        let r = CpsBus {
            program: Vec::new(),
            work_ram,
            gfxram,
            cps_a,
            cps_b,
            game,
            in0: 0xff,
            in1: 0xffff,
            in2: 0xffff,
            dswa: 0xff,
            dswb: 0xff,
            dswc: 0xff,
            sound_latch: 0,
            sound_latch2: 0,
            sound_latch_pending: false,
            irq_pending: 0,
        };
        assert(r@ =~= CpsBusView::power_on(game));
        r
    }

    pub fn game(&self) -> (r: CpsGame)
        ensures
            r == self@.game,
    {
        self.game
    }

    /// The mutable state; the program and the game are not part of it.
    pub fn snapshot(&self) -> (r: BusSnap)
        ensures
            r@ == self@.snap(),
    {
        BusSnap {
            work_ram: crate::bytes::copied(self.work_ram.as_slice()),
            gfxram: copied_words(self.gfxram.as_slice()),
            cps_a: copied_words(self.cps_a.as_slice()),
            cps_b: copied_words(self.cps_b.as_slice()),
            in0: self.in0,
            in1: self.in1,
            in2: self.in2,
            dswa: self.dswa,
            dswb: self.dswb,
            dswc: self.dswc,
            sound_latch: self.sound_latch,
            sound_latch2: self.sound_latch2,
            sound_latch_pending: self.sound_latch_pending,
            irq_pending: self.irq_pending,
        }
    }

    /// Restore the mutable state; memories of other sizes are taken over as far as they
    /// reach.
    pub fn restore(&mut self, snap: &BusSnap)
        ensures
            final(self)@ == old(self)@.restored(snap@),
            old(self)@.wf() ==> final(self)@.wf(),
    {
        overlay_bytes(&mut self.work_ram, &snap.work_ram);
        overlay_words(&mut self.gfxram, snap.gfxram.as_slice());
        overlay_words(&mut self.cps_a, snap.cps_a.as_slice());
        overlay_words(&mut self.cps_b, snap.cps_b.as_slice());
        self.in0 = snap.in0;
        self.in1 = snap.in1;
        self.in2 = snap.in2;
        self.dswa = snap.dswa;
        self.dswb = snap.dswb;
        self.dswc = snap.dswc;
        self.sound_latch = snap.sound_latch;
        self.sound_latch2 = snap.sound_latch2;
        self.sound_latch_pending = snap.sound_latch_pending;
        self.irq_pending = snap.irq_pending;
    }

    /// Work RAM, for inspection.
    pub fn work_ram(&self) -> (r: &[u8])
        ensures
            r@ == self@.work_ram,
    {
        self.work_ram.as_slice()
    }

    /// Interrupt level of the held lines: raster before V-blank; 0 while idle.
    pub fn irq_level(&self) -> (r: u32)
        ensures
            r == (if self@.irq_pending & 0x02 != 0 {
                4int
            } else if self@.irq_pending & 0x01 != 0 {
                2
            } else {
                0
            }),
    {
        if self.irq_pending & 0x02 != 0 {
            4
        } else if self.irq_pending & 0x01 != 0 {
            2
        } else {
            0
        }
    }

    fn rom_word(&self, addr: u32) -> (r: u16)
        requires
            addr <= 0x3fffff,
        ensures
            r == self@.rom_word(addr as int),
    {
        let i: usize = addr as usize;
        if i + 1 < self.program.len() {
            ((self.program[i] as u16) << 8) | self.program[i + 1] as u16
        } else {
            0xffff
        }
    }

    fn cps_b_read(&self, off: i32) -> (r: u16)
        requires
            self@.wf(),
            0 <= off < 0x20,
        ensures
            r == self@.cps_b_value(off as int),
    {
        let cfg = &self.game.cpsb;
        if cfg.cpsb_addr >= 0 && off == cfg.cpsb_addr / 2 && cfg.cpsb_value >= 0 {
            return cfg.cpsb_value as u16;
        }
        if cfg.mult_result_lo >= 0 && off == cfg.mult_result_lo / 2 {
            let a: u32 = self.cps_b[(cfg.mult_factor1 / 2) as usize] as u32;
            let b: u32 = self.cps_b[(cfg.mult_factor2 / 2) as usize] as u32;
            return (a.wrapping_mul(b) & 0xffff) as u16;
        }
        if cfg.mult_result_hi >= 0 && off == cfg.mult_result_hi / 2 {
            let a: u32 = self.cps_b[(cfg.mult_factor1 / 2) as usize] as u32;
            let b: u32 = self.cps_b[(cfg.mult_factor2 / 2) as usize] as u32;
            return (a.wrapping_mul(b) >> 16) as u16;
        }
        if self.game.in2_addr != 0 && off == self.game.in2_addr / 2 {
            return self.in2;
        }
        if self.game.in3_addr != 0 && off == self.game.in3_addr / 2 {
            return 0xffff;
        }
        self.cps_b[off as usize]
    }

    fn dsw_read(&self, off: u32) -> (r: u16)
        ensures
            r == self@.dsw_value(off as int),
    {
        let v: u8 = match off {
            0 => self.in0,
            1 => self.dswa,
            2 => self.dswb,
            _ => self.dswc,
        };
        ((v as u16) << 8) | 0x00ff
    }

    /// Read a word; unmapped addresses read as all ones.
    pub fn read_16(&self, addr: u32) -> (r: u16)
        requires
            self@.wf(),
        ensures
            r == self@.read16(addr),
    {
        if addr <= 0x3fffff {
            self.rom_word(addr)
        } else if 0x800000 <= addr && addr <= 0x800001 {
            self.in1
        } else if 0x800018 <= addr && addr <= 0x80001f {
            self.dsw_read((addr - 0x800018) / 2)
        } else if 0x800140 <= addr && addr <= 0x80017f {
            self.cps_b_read(((addr - 0x800140) / 2) as i32)
        } else if 0x900000 <= addr && addr <= 0x92ffff {
            self.gfxram[((addr - 0x900000) / 2) as usize]
        } else if 0xff0000 <= addr && addr <= 0xffffff {
            let off: u32 = addr - 0xff0000;
            let i: usize = (off - off % 2) as usize;
            ((self.work_ram[i] as u16) << 8) | self.work_ram[i + 1] as u16
        } else {
            0xffff
        }
    }

    /// Write a word; writes to ROM, to the coin counters and to unmapped addresses are
    /// ignored.
    pub fn write_16(&mut self, addr: u32, val: u16)
        requires
            old(self)@.wf(),
        ensures
            final(self)@ == old(self)@.write16(addr, val),
            final(self)@.wf(),
    {
        if 0x800100 <= addr && addr <= 0x80013f {
            self.cps_a.set(((addr - 0x800100) / 2) as usize, val);
        } else if 0x800140 <= addr && addr <= 0x80017f {
            self.cps_b.set(((addr - 0x800140) / 2) as usize, val);
        } else if 0x800180 <= addr && addr <= 0x800187 {
            self.sound_latch = val as u8;
            self.sound_latch_pending = true;
        } else if 0x800188 <= addr && addr <= 0x80018f {
            self.sound_latch2 = val as u8;
        } else if 0x900000 <= addr && addr <= 0x92ffff {
            self.gfxram.set(((addr - 0x900000) / 2) as usize, val);
        } else if 0xff0000 <= addr && addr <= 0xffffff {
            let off: u32 = addr - 0xff0000;
            let i: usize = (off - off % 2) as usize;
            self.work_ram.set(i, (val >> 8) as u8);
            self.work_ram.set(i + 1, val as u8);
        }
    }

    pub fn read_byte(&self, address: u32) -> (r: u8)
        requires
            self@.wf(),
        ensures
            r == self@.read8(address),
    {
        let w: u16 = self.read_16(address - address % 2);
        if address % 2 == 0 { (w >> 8) as u8 } else { w as u8 }
    }

    pub fn write_byte(&mut self, address: u32, value: u8)
        requires
            old(self)@.wf(),
        ensures
            final(self)@ == old(self)@.write8(address, value),
            final(self)@.wf(),
    {
        let even: u32 = address - address % 2;
        let w: u16 = self.read_16(even);
        let new: u16 = if address % 2 == 0 {
            (w & 0x00ff) | ((value as u16) << 8)
        } else {
            (w & 0xff00) | value as u16
        };
        self.write_16(even, new);
    }

    pub fn read_long(&self, address: u32) -> (r: u32)
        requires
            self@.wf(),
            address + 2 <= u32::MAX,
        ensures
            r == self@.read32(address),
    {
        ((self.read_16(address) as u32) << 16) | self.read_16(address + 2) as u32
    }

    pub fn write_long(&mut self, address: u32, value: u32)
        requires
            old(self)@.wf(),
            address + 2 <= u32::MAX,
        ensures
            final(self)@ == old(self)@.write32(address, value),
            final(self)@.wf(),
    {
        self.write_16(address, (value >> 16) as u16);
        self.write_16(address + 2, value as u16);
    }

    /// The CPU takes an interrupt: both lines are released, and the vector is the level's
    /// own.
    pub fn interrupt_acknowledge(&mut self, level: u8) -> (r: u32)
        ensures
            r == 0xFFFF_FFFF,
            final(self)@ == (CpsBusView { irq_pending: 0, ..old(self)@ }),
    {
        self.irq_pending = 0;
        0xFFFF_FFFF
    }

    /// Where a CPS-A base register points, as a word offset in graphics RAM.
    pub fn video_base(&self, reg_index: usize, boundary: u32) -> (r: usize)
        requires
            self@.wf(),
            reg_index < CPS_REG_WORDS,
            boundary > 0,
        ensures
            r == self@.base(reg_index as int, boundary),
            r < 0x20000,
    {
        let base: u32 = (self.cps_a[reg_index] as u32) * 256;
        let aligned: u32 = base & !(boundary - 1);
        assert(aligned & 0x3ffff <= 0x3ffff) by {
            low_bits_are_remainders();
        }
        ((aligned & 0x3ffff) / 2) as usize
    }

    /// Remap a tile code through the game's graphics banks.
    pub fn map_gfx(&self, gfxtype: i32, code: i32) -> (r: i32)
        requires
            self@.game.wf(),
        ensures
            r == self@.game.mapped(gfxtype, code),
            -1 <= r <= 0x40_0000,
    {
        self.game.gfxrom_bank_mapper(gfxtype, code)
    }

    /// A word of graphics RAM; 0 beyond its end.
    pub fn gfx_word(&self, i: usize) -> (r: u16)
        ensures
            r == self@.gfx_word(i as int),
    {
        if i < self.gfxram.len() { self.gfxram[i] } else { 0 }
    }
}

// ── Laws ─────────────────────────────────────────────────────────────────────

/// A word written to work RAM or graphics RAM reads back, and no word that starts elsewhere
/// in RAM changes.
pub proof fn ram_write_then_read(b: CpsBusView, addr: u32, val: u16, other: u32)
    requires
        b.wf(),
        addr % 2 == 0,
        other % 2 == 0,
        0x900000 <= addr <= 0x92ffff || 0xff0000 <= addr <= 0xffffff,
        0x900000 <= other <= 0x92ffff || 0xff0000 <= other <= 0xffffff,
    ensures
        b.write16(addr, val).read16(addr) == val,
        other != addr ==> b.write16(addr, val).read16(other) == b.read16(other),
{
    crate::bytes::split_word(val);
}

/// A byte written to work RAM reads back, and its neighbour in the word stays.
pub proof fn work_ram_byte_write_then_read(b: CpsBusView, addr: u32, val: u8, other: u32)
    requires
        b.wf(),
        0xff0000 <= addr <= 0xffffff,
        0xff0000 <= other <= 0xffffff,
    ensures
        b.write8(addr, val).read8(addr) == val,
        other != addr ==> b.write8(addr, val).read8(other) == b.read8(other),
{
    let even = (addr - addr % 2) as u32;
    let w = b.read16(even);
    let new = if addr % 2 == 0 { (w & 0x00ff) | ((val as u16) << 8) } else { (w & 0xff00) | val as u16 };
    byte_in_word(w, val);
    ram_write_then_read(b, even, new, (other - other % 2) as u32);
}

proof fn byte_in_word(w: u16, v: u8)
    ensures
        ((((w & 0x00ff) | ((v as u16) << 8)) >> 8) as u8) == v,
        (((w & 0x00ff) | ((v as u16) << 8)) as u8) == w as u8,
        (((w & 0xff00) | v as u16) as u8) == v,
        ((((w & 0xff00) | v as u16) >> 8) as u8) == (w >> 8) as u8,
{
    halves(w, v, 0);
}

/// The multiply protection answers with the product of its two factors: the low and the high
/// result register together hold it.
pub proof fn multiplier_gives_product(b: CpsBusView, f1: u16, f2: u16)
    requires
        b.wf(),
        crate::cps::config::is_sf2ce(b.game),
    ensures
        ({
            let w = b.write16(0x800140, f1).write16(0x800142, f2);
            w.read16(0x800146) * 65536 + w.read16(0x800144) == f1 * f2
        }),
{
    let w = b.write16(0x800140, f1).write16(0x800142, f2);
    assert(w.cps_b[0] == f1 && w.cps_b[1] == f2);
    assert(f1 * f2 <= 0xffff * 0xffff) by (nonlinear_arith)
        requires
            f1 <= 0xffff,
            f2 <= 0xffff,
    ;
    assert(0 <= f1 * f2) by (nonlinear_arith);
    let p = w.product();
    assert(p == f1 * f2);
    halves(0, 0, p);
}

/// Writes to the program ROM change nothing.
pub proof fn rom_is_read_only(b: CpsBusView, addr: u32, val: u16)
    requires
        addr <= 0x3fffff,
    ensures
        b.write16(addr, val) == b,
{
}

/// Restoring a snapshot brings back everything it was taken of, whatever happened to the
/// bus in between.
pub proof fn bus_snapshot_restores(b: CpsBusView, later: CpsBusView)
    requires
        b.wf(),
        later.wf(),
        later.program == b.program,
        later.game == b.game,
    ensures
        later.restored(b.snap()) == b,
{
    assert(later.restored(b.snap()) =~= b);
}

} // verus!
