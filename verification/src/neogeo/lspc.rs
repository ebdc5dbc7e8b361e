//! LSPC-2 video controller.
//!
//! The chip owns VRAM (64 KB slow, 4 KB fast, reached through a register window),
//! palette RAM (two 8 KB banks), the raster timer, the beam counter and the
//! pending-interrupt register:
//!
//! | Bit | Mask   | Source               | 68K level |
//! |-----|--------|----------------------|-----------|
//! | 0   | `0x01` | Cold-boot / watchdog | 3         |
//! | 1   | `0x02` | Raster timer         | 2         |
//! | 2   | `0x04` | V-blank              | 1         |

use crate::bits::single_bits;
use vstd::prelude::*;

verus! {

/// Total scanlines per frame including blanking (NTSC).
pub const SCANLINES_PER_FRAME: u32 = 264;

/// 68K CPU cycles per full video frame (12 MHz at about 60 Hz).
pub const CYCLES_PER_BEAM_FRAME: u32 = 200_000;

/// 68K CPU cycles per scanline.
pub const CYCLES_PER_LINE: u32 = CYCLES_PER_BEAM_FRAME / SCANLINES_PER_FRAME;

/// Bytes of VRAM: 64 KB slow and 4 KB fast.
pub const VRAM_SIZE: usize = 0x11000;

/// Bytes of palette RAM: two banks of 8 KB.
pub const PAL_RAM_SIZE: usize = 0x4000;

/// LSPC-2 video-controller state.
pub struct Lspc {
    /// Slow VRAM (word addresses `$0000-$7FFF`) at bytes `0x00000-0x0FFFF`, fast
    /// VRAM (`$8000-$87FF`) at bytes `0x10000-0x10FFF`.
    pub vram: Vec<u8>,
    /// Palette RAM: bank 0 at bytes `0x0000-0x1FFF`, bank 1 at `0x2000-0x3FFF`.
    pub pal_ram: Vec<u8>,
    /// Active palette bank: `false` = bank 0, `true` = bank 1.
    pub pal_bank: bool,
    /// `REG_VRAMADDR`: current word address into VRAM.
    pub vram_addr: u16,
    /// `REG_VRAMMOD`: added to `vram_addr` after each write through `REG_VRAMRW`.
    pub vram_mod: u16,
    /// The fix layer uses the system SFIX ROM (else the cartridge S-ROM).
    pub brd_fix: bool,
    /// Dim the video output.
    pub shadow: bool,
    /// Raster-timer reload value.
    pub timer_reload: u32,
    /// Raster-timer down-counter, at half the 68K clock.
    pub timer_counter: u32,
    /// The timer runs once `REG_TIMERLOW` has been written.
    pub timer_active: bool,
    /// `REG_TIMERSTOP` bit 0.
    pub timer_stop_in_border: bool,
    /// 68K cycles not yet turned into timer ticks.
    pub timer_subcycle: u32,
    /// Raster position in 68K cycles, below [`CYCLES_PER_BEAM_FRAME`].
    pub beam_cycles: u32,
    /// Pending interrupt sources.
    pub pending_irq: u8,
    /// Low byte of the last `REG_LSPCMODE` write; bit 4 enables the timer interrupt.
    pub irq_control: u8,
    /// Auto-animation frame (0-7).
    pub auto_anim_frame: u8,
    /// The animation frame advances every `auto_anim_speed + 1` V-blanks.
    pub auto_anim_speed: u8,
    /// V-blanks since the animation frame last advanced.
    pub auto_anim_timer: u8,
}

/// What an [`Lspc`] holds.
#[verifier::ext_equal]
pub struct LspcView {
    pub vram: Seq<u8>,
    pub pal_ram: Seq<u8>,
    pub pal_bank: bool,
    pub vram_addr: u16,
    pub vram_mod: u16,
    pub brd_fix: bool,
    pub shadow: bool,
    pub timer_reload: u32,
    pub timer_counter: u32,
    pub timer_active: bool,
    pub timer_stop_in_border: bool,
    pub timer_subcycle: u32,
    pub beam_cycles: u32,
    pub pending_irq: u8,
    pub irq_control: u8,
    pub auto_anim_frame: u8,
    pub auto_anim_speed: u8,
    pub auto_anim_timer: u8,
}

impl View for Lspc {
    type V = LspcView;

    open spec fn view(&self) -> LspcView {
        LspcView {
            vram: self.vram@,
            pal_ram: self.pal_ram@,
            pal_bank: self.pal_bank,
            vram_addr: self.vram_addr,
            vram_mod: self.vram_mod,
            brd_fix: self.brd_fix,
            shadow: self.shadow,
            timer_reload: self.timer_reload,
            timer_counter: self.timer_counter,
            timer_active: self.timer_active,
            timer_stop_in_border: self.timer_stop_in_border,
            timer_subcycle: self.timer_subcycle,
            beam_cycles: self.beam_cycles,
            pending_irq: self.pending_irq,
            irq_control: self.irq_control,
            auto_anim_frame: self.auto_anim_frame,
            auto_anim_speed: self.auto_anim_speed,
            auto_anim_timer: self.auto_anim_timer,
        }
    }
}

/// The smaller of two numbers.
pub open spec fn min_int(a: int, b: int) -> int {
    if a <= b { a } else { b }
}

impl LspcView {
    /// Both memories have their hardware size and the timer remainder is a remainder.
    pub open spec fn wf(self) -> bool {
        &&& self.vram.len() == VRAM_SIZE
        &&& self.pal_ram.len() == PAL_RAM_SIZE
        &&& self.timer_subcycle < 2
    }

    /// Power-on state.
    pub open spec fn power_on() -> LspcView {
        LspcView {
            vram: Seq::new(VRAM_SIZE as nat, |i: int| 0u8),
            pal_ram: Seq::new(PAL_RAM_SIZE as nat, |i: int| 0u8),
            pal_bank: false,
            vram_addr: 0,
            vram_mod: 1,
            brd_fix: true,
            shadow: false,
            timer_reload: 0,
            timer_counter: 0,
            timer_active: false,
            timer_stop_in_border: false,
            timer_subcycle: 0,
            beam_cycles: 0,
            pending_irq: 0,
            irq_control: 0,
            auto_anim_frame: 0,
            auto_anim_speed: 0,
            auto_anim_timer: 0,
        }
    }

    /// Byte offset of the word at `vram_addr`.
    pub open spec fn vram_offset(self) -> int {
        (self.vram_addr * 2) % (self.vram.len() as int)
    }

    /// The word at `vram_addr`, big-endian.
    pub open spec fn vram_word(self) -> u16 {
        let a = self.vram_offset();
        ((self.vram[a] as u16) << 8) | self.vram[(a + 1) % (self.vram.len() as int)] as u16
    }

    /// The state after `value` was stored at `vram_addr`.
    pub open spec fn with_vram_word(self, value: u16) -> LspcView {
        let a = self.vram_offset();
        LspcView {
            vram: self.vram.update(a, (value >> 8) as u8).update(
                (a + 1) % (self.vram.len() as int),
                (value & 0xFF) as u8,
            ),
            ..self
        }
    }

    /// The state after one palette byte was stored (nothing beyond the end).
    pub open spec fn with_pal_byte(self, offset: int, v: u8) -> LspcView {
        if 0 <= offset < self.pal_ram.len() {
            LspcView { pal_ram: self.pal_ram.update(offset, v), ..self }
        } else {
            self
        }
    }

    /// Scanline that the beam is on.
    pub open spec fn scanline(self) -> int {
        min_int((self.beam_cycles / CYCLES_PER_LINE) as int, SCANLINES_PER_FRAME - 1)
    }

    /// `REG_LSPCMODE` read value: the scanline plus the hardware's `0xF8` offset in
    /// bits 15-7, the auto-animation frame in bits 2-0.
    pub open spec fn mode_word(self) -> u16 {
        let hw_line = ((self.scanline() + 0xF8) as u32) & 0x1FF;
        ((hw_line << 7) | (self.auto_anim_frame as u32 & 0x07)) as u16
    }

    /// The state after one V-blank.
    pub open spec fn after_vbl(self) -> LspcView {
        if self.auto_anim_timer >= self.auto_anim_speed {
            LspcView {
                auto_anim_timer: 0,
                auto_anim_frame: self.auto_anim_frame.wrapping_add(1)
                    & 0x07,
                ..self
            }
        } else {
            LspcView { auto_anim_timer: (self.auto_anim_timer + 1) as u8, ..self }
        }
    }

    /// 68K interrupt level of the most urgent pending source.
    pub open spec fn level(self) -> u32 {
        if self.pending_irq & 0x01 != 0 {
            3
        } else if self.pending_irq & 0x02 != 0 {
            2
        } else if self.pending_irq & 0x04 != 0 {
            1
        } else {
            0
        }
    }

    /// Timer ticks that fall due within `cycles` 68K cycles.
    pub open spec fn timer_ticks(self, cycles: u32) -> int {
        (self.timer_subcycle + cycles) / 2
    }

    /// The state after `cycles` 68K cycles.
    pub open spec fn after_cycles(self, cycles: u32) -> LspcView {
        let beam = LspcView {
            beam_cycles: self.beam_cycles.wrapping_add(cycles)
                % CYCLES_PER_BEAM_FRAME,
            ..self
        };
        let ticks = self.timer_ticks(cycles);
        if !self.timer_active {
            beam
        } else {
            let counted = LspcView {
                timer_subcycle: ((self.timer_subcycle + cycles) % 2) as u32,
                ..beam
            };
            if ticks == 0 {
                counted
            } else if self.timer_counter <= ticks {
                LspcView {
                    timer_counter: self.timer_reload,
                    pending_irq: if self.irq_control & 0x10 != 0 {
                        self.pending_irq | 0x02
                    } else {
                        self.pending_irq
                    },
                    ..counted
                }
            } else {
                LspcView { timer_counter: (self.timer_counter - ticks) as u32, ..counted }
            }
        }
    }
}

/// The place after the last one is the first.
proof fn next_wraps(a: int, len: int)
    requires
        0 <= a < len,
    ensures
        (a + 1) % len == (if a == len - 1 { 0 } else { a + 1 }),
{
    if a == len - 1 {
        vstd::arithmetic::div_mod::lemma_mod_self_0(len);
    } else {
        vstd::arithmetic::div_mod::lemma_small_mod((a + 1) as nat, len as nat);
    }
}

impl Lspc {
    /// Power-on state: empty memories, timer off, system fix font.
    pub fn new() -> (r: Self)
        ensures
            r@ == LspcView::power_on(),
            r@.wf(),
    {
        let r = Lspc {
            vram: vec![0u8; VRAM_SIZE],
            pal_ram: vec![0u8; PAL_RAM_SIZE],
            pal_bank: false,
            vram_addr: 0,
            vram_mod: 1,
            brd_fix: true,
            shadow: false,
            timer_reload: 0,
            timer_counter: 0,
            timer_active: false,
            timer_stop_in_border: false,
            timer_subcycle: 0,
            beam_cycles: 0,
            pending_irq: 0,
            irq_control: 0,
            auto_anim_frame: 0,
            auto_anim_speed: 0,
            auto_anim_timer: 0,
        };
        assert(r@.vram =~= LspcView::power_on().vram);
        assert(r@.pal_ram =~= LspcView::power_on().pal_ram);
        r
    }

    /// Byte offset in `vram` of the word that `vram_addr` selects.
    pub fn vram_byte_addr(&self) -> (r: usize)
        requires
            self.vram@.len() > 0,
        ensures
            r == self@.vram_offset(),
            r < self.vram@.len(),
    {
        (self.vram_addr as usize * 2) % self.vram.len()
    }

    /// Read the word at `vram_addr`.  The address stays.
    pub fn vram_read_word(&self) -> (r: u16)
        requires
            self.vram@.len() > 0,
        ensures
            r == self@.vram_word(),
    {
        let a: usize = self.vram_byte_addr();
        let next: usize = if a == self.vram.len() - 1 { 0 } else { a + 1 };
        proof {
            next_wraps(a as int, self.vram@.len() as int);
        }
        ((self.vram[a] as u16) << 8) | self.vram[next] as u16
    }

    /// Store `value` at `vram_addr`.  The address stays: advancing it is the bus's
    /// work.
    pub fn vram_write_word(&mut self, value: u16)
        requires
            old(self).vram@.len() > 0,
        ensures
            final(self)@ == old(self)@.with_vram_word(value),
    {
        let a: usize = self.vram_byte_addr();
        let next: usize = if a == self.vram.len() - 1 { 0 } else { a + 1 };
        proof {
            next_wraps(a as int, self.vram@.len() as int);
        }
        self.vram.set(a, (value >> 8) as u8);
        self.vram.set(next, (value & 0xFF) as u8);
    }

    /// Read a palette byte; zero beyond the end.
    pub fn pal_read(&self, offset: usize) -> (r: u8)
        ensures
            r == (if offset < self.pal_ram@.len() { self.pal_ram@[offset as int] } else { 0 }),
    {
        if offset < self.pal_ram.len() { self.pal_ram[offset] } else { 0 }
    }

    /// Write a palette byte; nothing beyond the end.
    pub fn pal_write(&mut self, offset: usize, v: u8)
        ensures
            final(self)@ == old(self)@.with_pal_byte(offset as int, v),
    {
        if offset < self.pal_ram.len() {
            self.pal_ram.set(offset, v);
        }
    }

    /// `REG_LSPCMODE` read value.
    pub fn lspc_mode_read(&self) -> (r: u16)
        ensures
            r == self@.mode_word(),
    {
        let q: u32 = self.beam_cycles / CYCLES_PER_LINE;
        let line: u32 = if q <= SCANLINES_PER_FRAME - 1 { q } else { SCANLINES_PER_FRAME - 1 };
        let hw_line: u32 = (line + 0xF8) & 0x1FF;
        ((hw_line << 7) | (self.auto_anim_frame as u32 & 0x07)) as u16
    }

    /// Advance the auto-animation counter, once per V-blank.
    pub fn tick_vbl(&mut self)
        ensures
            final(self)@ == old(self)@.after_vbl(),
    {
        if self.auto_anim_timer >= self.auto_anim_speed {
            self.auto_anim_timer = 0;
            self.auto_anim_frame = self.auto_anim_frame.wrapping_add(1) & 0x07;
        } else {
            self.auto_anim_timer = self.auto_anim_timer + 1;
        }
    }

    /// Add `mask` to the pending interrupts.
    pub fn raise_irq(&mut self, mask: u8)
        ensures
            final(self)@ == (LspcView { pending_irq: old(self)@.pending_irq | mask, ..old(self)@ }),
    {
        self.pending_irq = self.pending_irq | mask;
    }

    /// Clear the acknowledged sources (bits 2-0 of `mask`).
    pub fn irq_ack(&mut self, mask: u8)
        ensures
            final(self)@ == (LspcView {
                pending_irq: old(self)@.pending_irq & !(mask & 0x07),
                ..old(self)@
            }),
    {
        self.pending_irq = self.pending_irq & !(mask & 0x07);
    }

    /// The 68K interrupt level to assert.
    pub fn irq_level(&self) -> (r: u32)
        ensures
            r == self@.level(),
    {
        if self.pending_irq & 0x01 != 0 {
            3
        } else if self.pending_irq & 0x02 != 0 {
            2
        } else if self.pending_irq & 0x04 != 0 {
            1
        } else {
            0
        }
    }

    /// Advance the beam counter and the raster timer by `m68k_cycles` 68K cycles.
    pub fn tick(&mut self, m68k_cycles: u32)
        requires
            old(self).timer_active ==> old(self).timer_subcycle + m68k_cycles <= u32::MAX,
        ensures
            final(self)@ == old(self)@.after_cycles(m68k_cycles),
            final(self)@.beam_cycles < CYCLES_PER_BEAM_FRAME,
            old(self)@.wf() ==> final(self)@.wf(),
    {
        self.beam_cycles = self.beam_cycles.wrapping_add(m68k_cycles) % CYCLES_PER_BEAM_FRAME;
        if !self.timer_active {
            return;
        }
        let total_subcycles: u32 = self.timer_subcycle + m68k_cycles;
        let ticks: u32 = total_subcycles / 2;
        self.timer_subcycle = total_subcycles % 2;
        if ticks == 0 {
            return;
        }
        if self.timer_counter <= ticks {
            if self.irq_control & 0x10 != 0 {
                self.pending_irq = self.pending_irq | 0x02;
            }
            self.timer_counter = self.timer_reload;
        } else {
            self.timer_counter = self.timer_counter - ticks;
        }
    }
}

impl Lspc {
    /// Whether the memories have their size and the remainder is one.
    pub fn is_valid(&self) -> (r: bool)
        ensures
            r == self@.wf(),
    {
        self.vram.len() == VRAM_SIZE && self.pal_ram.len() == PAL_RAM_SIZE && self.timer_subcycle < 2
    }
}

impl Clone for Lspc {
    fn clone(&self) -> (r: Self)
        ensures
            r@ == self@,
    {
        let r = Lspc {
            vram: self.vram.clone(),
            pal_ram: self.pal_ram.clone(),
            pal_bank: self.pal_bank,
            vram_addr: self.vram_addr,
            vram_mod: self.vram_mod,
            brd_fix: self.brd_fix,
            shadow: self.shadow,
            timer_reload: self.timer_reload,
            timer_counter: self.timer_counter,
            timer_active: self.timer_active,
            timer_stop_in_border: self.timer_stop_in_border,
            timer_subcycle: self.timer_subcycle,
            beam_cycles: self.beam_cycles,
            pending_irq: self.pending_irq,
            irq_control: self.irq_control,
            auto_anim_frame: self.auto_anim_frame,
            auto_anim_speed: self.auto_anim_speed,
            auto_anim_timer: self.auto_anim_timer,
        };
        assert(r@ =~= self@);
        r
    }
}

impl Default for Lspc {
    fn default() -> (r: Self)
        ensures
            r@ == LspcView::power_on(),
    {
        Self::new()
    }
}

/// A word stored in VRAM reads back at its own address and leaves the word at every
/// other address unchanged.
pub proof fn vram_write_then_read(s: LspcView, value: u16, other: u16)
    requires
        s.vram.len() == VRAM_SIZE,
    ensures
        s.with_vram_word(value).vram_word() == value,
        (LspcView { vram_addr: other, ..s }).vram_offset() != s.vram_offset() ==> (LspcView {
            vram_addr: other,
            ..s.with_vram_word(value)
        }).vram_word() == (LspcView { vram_addr: other, ..s }).vram_word(),
{
    crate::bytes::split_word(value);
    let a = s.vram_offset();
    let b = (LspcView { vram_addr: other, ..s }).vram_offset();
    assert(a == (s.vram_addr * 2) % 0x11000);
    assert(b == (other * 2) % 0x11000);
    assert(a % 2 == 0 && b % 2 == 0 && 0 <= a < VRAM_SIZE - 1 && 0 <= b < VRAM_SIZE - 1);
}

/// Raising sources makes them pending until they are acknowledged; acknowledging
/// touches no other source.
pub proof fn raise_then_ack(pending: u8, mask: u8)
    ensures
        (pending | mask) & mask == mask,
        (pending | mask) & !mask == pending & !mask,
        (pending & !(mask & 0x07)) & (mask & 0x07) == 0,
        (pending & !(mask & 0x07)) & !(mask & 0x07) == pending & !(mask & 0x07),
{
    assert((pending | mask) & mask == mask && (pending | mask) & !mask == pending & !mask && (pending
        & !(mask & 0x07)) & (mask & 0x07) == 0 && (pending & !(mask & 0x07)) & !(mask & 0x07)
        == pending & !(mask & 0x07)) by (bit_vector);
}

/// An enabled timer whose counter runs out makes at least level 2 pending and starts
/// again from its reload value.
pub proof fn timer_underflow_interrupts(s: LspcView, cycles: u32)
    requires
        s.timer_active,
        s.irq_control & 0x10 != 0,
        s.timer_counter <= s.timer_ticks(cycles),
        s.timer_ticks(cycles) > 0,
    ensures
        s.after_cycles(cycles).level() >= 2,
        s.after_cycles(cycles).timer_counter == s.timer_reload,
{
    single_bits(s.pending_irq);
}

} // verus!
