//! Laws of the NeoGeo board as its program sees it, by address.

use crate::bits::{halves, low_bits_are_remainders, shifts_are_digits, single_bits};
use crate::bytes::{pairs_swapped, swap_pairs_twice};
use crate::io::InputState;
use crate::neogeo::bus::{bios_corrected, BusView};
use crate::neogeo::lspc::LspcView;
use crate::neogeo::machine::{CYCLES_PER_FRAME, VBLANK_CYCLES};
use vstd::prelude::*;

verus! {

/// An address of 24 bits stands for itself.
proof fn stays(a: u32)
    requires
        a <= 0xFF_FFFF,
    ensures
        a & 0x00FF_FFFF == a,
{
    low_bits_are_remainders();
}

/// One where a flag is set.
pub open spec fn one_if(b: bool) -> int {
    if b { 1 } else { 0 }
}

// ── Controls ─────────────────────────────────────────────────────────────────

/// After an input was applied, `$300000` reads player 1's buttons and `$340000` player 2's.
/// `$380000` reads the switches, with its top bit low for a home system, high for an arcade one,
/// and as given while neither is presented.  The low six bits of `$320001` are the coin lines;
/// above them stand the clock's time pulse and its serial output.
pub proof fn controls_are_read_where_they_belong(s: BusView, input: InputState)
    ensures
        ({
            let t = s.input_applied(input);
            &&& t.read8(0x300000) == input.p1
            &&& t.read8(0x340000) == input.p2
            &&& t.read8(0x380000) % 128 == input.sys % 128
            &&& s.presentation_aes == Some(true) ==> t.read8(0x380000) / 128 == 0
            &&& s.presentation_aes == Some(false) ==> t.read8(0x380000) / 128 == 1
            &&& s.presentation_aes is None ==> t.read8(0x380000) / 128 == input.sys / 128
            &&& t.read8(0x320001) % 64 == input.coin % 64
            &&& (t.read8(0x320001) / 64) % 2 == one_if(s.rtc.tp)
            &&& t.read8(0x320001) / 128 == (if s.rtc.mode == 1 { (s.rtc.shift0 % 2) as int } else { 0 })
        }),
{
    stays(0x300000);
    stays(0x340000);
    stays(0x380000);
    stays(0x320001);
    single_bits(input.sys);
    let t = s.input_applied(input);
    let (c, x, r) = (input.coin, s.rtc.shift0, t.rtc.outputs());
    let serial: u8 = if s.rtc.mode == 1 { (x & 1) as u8 } else { 0 };
    let pulse: u8 = if s.rtc.tp { 1 } else { 0 };
    let b = (c & 0x3F) | (r << 6);
    let shown = s.rtc.mode == 1;
    assert(b % 64 == c % 64 && (b / 64) % 2 == pulse && b / 128 == (if shown { x % 2 } else { 0 })) by (bit_vector)
        requires
            b == (c & 0x3F) | (r << 6),
            r == (serial << 1) | pulse,
            serial == (if shown { (x & 1) as u8 } else { 0u8 }),
            pulse <= 1,
    ;
}

/// What one player holds changes nothing in what the other's register reads.
pub proof fn players_have_their_own_registers(s: BusView, input: InputState, other: u8)
    ensures
        s.input_applied(InputState { p2: other, ..input }).read8(0x300000) == s.input_applied(input).read8(0x300000),
        s.input_applied(InputState { p1: other, ..input }).read8(0x340000) == s.input_applied(input).read8(0x340000),
{
    stays(0x300000);
    stays(0x340000);
}

// ── Memory map ───────────────────────────────────────────────────────────────

/// The memories by address: work RAM at `$100000`, palette RAM at `$400000` (the active bank of
/// 8 KB), the memory card at the odd addresses from `$800000`, backup RAM at `$D00000`.
pub proof fn memories_are_where_they_belong(s: BusView, k: u32)
    requires
        s.wf(),
    ensures
        k < 0x1_0000 ==> s.read8((0x100000 + k) as u32) == s.wram[k as int],
        k < 0x1_0000 ==> s.read8((0xD00000 + k) as u32) == s.sram[k as int],
        k < 0x2000 && !s.lspc.pal_bank ==> s.read8((0x400000 + k) as u32) == s.lspc.pal_ram[k as int],
        k < 0x2000 && s.lspc.pal_bank ==> s.read8((0x400000 + k) as u32) == s.lspc.pal_ram[0x2000 + k],
        k < 0x800 && k < s.mem_card.len() ==> s.read8((0x800001 + 2 * k) as u32) == s.mem_card[k as int],
{
    if k < 0x1_0000 {
        stays((0x100000 + k) as u32);
        stays((0xD00000 + k) as u32);
    }
    if k < 0x2000 {
        stays((0x400000 + k) as u32);
    }
    if k < 0x800 {
        stays((0x800001 + 2 * k) as u32);
    }
}

/// The same memories take writes at the same addresses: the byte written is the one that is read,
/// in its own memory and nowhere else.
pub proof fn memories_take_writes(s: BusView, k: u32, v: u8)
    requires
        s.wf(),
    ensures
        k < 0x1_0000 ==> s.write8((0x100000 + k) as u32, v) == (BusView {
            wram: s.wram.update(k as int, v),
            ..s
        }),
        k < 0x1_0000 && s.sram_writable ==> s.write8((0xD00000 + k) as u32, v) == (BusView {
            sram: s.sram.update(k as int, v),
            ..s
        }),
        k < 0x1_0000 && !s.sram_writable ==> s.write8((0xD00000 + k) as u32, v) == s,
        k < 0x2000 ==> s.write8((0x400000 + k) as u32, v) == (BusView {
            lspc: LspcView {
                pal_ram: s.lspc.pal_ram.update(0x2000 * one_if(s.lspc.pal_bank) + k, v),
                ..s.lspc
            },
            ..s
        }),
        k < 0x800 && k < s.mem_card.len() ==> s.write8((0x800001 + 2 * k) as u32, v) == (BusView {
            mem_card: s.mem_card.update(k as int, v),
            ..s
        }),
{
    if k < 0x1_0000 {
        stays((0x100000 + k) as u32);
        stays((0xD00000 + k) as u32);
    }
    if k < 0x2000 {
        stays((0x400000 + k) as u32);
    }
    if k < 0x800 {
        stays((0x800001 + 2 * k) as u32);
    }
}

/// The ROMs by address.  Once the cartridge is swapped in, its program stands at 0, as far as its
/// chip does not forge a byte, and repeats; the BIOS stands at `$C00000`.  Before, the first 128
/// bytes of the two are exchanged.
pub proof fn roms_are_where_they_belong(s: BusView, k: u32)
    requires
        s.roms.p_rom.len() > 0,
        s.roms.bios_rom.len() > 0,
    ensures
        ({
            let (p, b) = (s.roms.p_rom, s.roms.bios_rom);
            let plain = (s.cart.chip.intercept)(s.chip, k) is None;
            &&& 0x80 <= k < 0x10_0000 && plain ==> s.read8(k) == p[k as int % (p.len() as int)]
            &&& k < 0x80 && s.swp_rom && plain && k < p.len() ==> s.read8(k) == p[k as int]
            &&& k < 0x80 && !s.swp_rom ==> s.read8(k) == b[k as int % (b.len() as int)]
            &&& k < 0x10_0000 && (k >= 0x80 || s.swp_rom) ==> ((s.cart.chip.intercept)(s.chip, k) matches Some(
                forged,
            ) ==> s.read8(k) == forged)
            &&& 0x80 <= k < 0x8_0000 ==> s.read8((0xC00000 + k) as u32) == b[k as int % (b.len() as int)]
            &&& k < 0x80 && s.swp_rom ==> s.read8((0xC00000 + k) as u32) == b[k as int % (b.len() as int)]
            &&& k < 0x80 && !s.swp_rom && (s.cart.chip.intercept)(s.chip, (0xC00000 + k) as u32) is None
                ==> s.read8((0xC00000 + k) as u32) == p[k as int % (p.len() as int)]
        }),
{
    if k < 0x10_0000 {
        stays(k);
        if k < 0x8_0000 {
            stays((0xC00000 + k) as u32);
        }
        if k < 0x80 && k < s.roms.p_rom.len() {
            vstd::arithmetic::div_mod::lemma_small_mod(k as nat, s.roms.p_rom.len());
        }
    }
}

/// The window at `$200000` shows a megabyte of the program: bank `b` (the low three bits of what
/// was written to `$2FFFF0`) is the one that starts `b + 1` megabytes in, or the second one where
/// the program does not reach that far.
pub proof fn bank_select_shows_its_megabyte(s: BusView, value: u16, k: u32)
    requires
        s.roms.p_rom.len() > 0,
        k < 0x10_0000,
    ensures
        ({
            let p = s.roms.p_rom;
            let start = 0x10_0000 * (value % 8 + 1);
            let base = if start < p.len() { start } else { 0x10_0000 };
            s.write16(0x2FFFF0, value).read8((0x200000 + k) as u32) == p[(base + k) % (p.len() as int)]
        }),
{
    stays(0x2FFFF0);
    stays((0x200000 + k) as u32);
    low_bits_are_remainders();
    let b = (value & 7) as usize;
    assert(b << 20 == b * 0x10_0000) by (bit_vector)
        requires
            b < 8,
    ;
}

/// Words are big-endian: a word read is the byte at its address and the next below it, and a word
/// written to RAM puts its high byte first.
pub proof fn words_are_big_endian(s: BusView, a: u32, v: u16)
    requires
        s.wf(),
        a < 0xFF_FFFF,
    ensures
        a != 0x3C0002 && a != 0x3C0006 ==> s.read16(a) == s.read8(a) * 256 + s.read8((a + 1) as u32),
        0x100000 <= a < 0x10FFFF && !(s.cart.chip.write_16)(s.chip, a, v).0 ==> {
            let t = s.write16(a, v);
            &&& t.read8(a) == v / 256
            &&& t.read8((a + 1) as u32) == v % 256
        },
{
    stays(a);
    stays((a + 1) as u32);
    shifts_are_digits();
    low_bits_are_remainders();
}

// ── Registers ────────────────────────────────────────────────────────────────

/// The latches at `$3A00xx`, switched by a write of whatever value: shadow, vectors, fix tiles
/// with the sound program, protection of the backup RAM, palette bank.
pub proof fn latches_are_switched_by_address(s: BusView, v: u8)
    ensures
        s.write8(0x3A0001, v) == (BusView { lspc: LspcView { shadow: false, ..s.lspc }, ..s }),
        s.write8(0x3A0011, v) == (BusView { lspc: LspcView { shadow: true, ..s.lspc }, ..s }),
        s.write8(0x3A0003, v) == (BusView { swp_rom: false, ..s }),
        s.presentation_aes != Some(true) ==> s.write8(0x3A0013, v) == (BusView { swp_rom: true, ..s }),
        s.write8(0x3A0013, v).swp_rom,
        s.write8(0x3A000B, v).lspc == (LspcView { brd_fix: true, ..s.lspc }),
        s.write8(0x3A001B, v).lspc == (LspcView { brd_fix: false, ..s.lspc }),
        s.roms.sm1_rom.len() > 0 ==> s.write8(0x3A000B, v).pending_m1_rom == Some(s.roms.sm1_rom),
        s.roms.sm1_rom.len() == 0 ==> s.write8(0x3A000B, v).pending_m1_rom == s.pending_m1_rom,
        s.roms.m1_rom.len() > 0 ==> s.write8(0x3A001B, v).pending_m1_rom == Some(s.roms.m1_rom),
        s.roms.m1_rom.len() == 0 ==> s.write8(0x3A001B, v).pending_m1_rom == s.pending_m1_rom,
        s.write8(0x3A000D, v) == (BusView { sram_writable: false, ..s }),
        s.write8(0x3A001D, v) == (BusView { sram_writable: true, ..s }),
        s.write8(0x3A000F, v) == (BusView { lspc: LspcView { pal_bank: true, ..s.lspc }, ..s }),
        s.write8(0x3A001F, v) == (BusView { lspc: LspcView { pal_bank: false, ..s.lspc }, ..s }),
{
    stays(0x3A0001);
    stays(0x3A0011);
    stays(0x3A0003);
    stays(0x3A0013);
    stays(0x3A000B);
    stays(0x3A001B);
    stays(0x3A000D);
    stays(0x3A001D);
    stays(0x3A000F);
    stays(0x3A001F);
}

/// The clock's lines at `$380051`: data, clock and strobe from the lowest bit up.
pub proof fn clock_lines_are_wired(s: BusView, v: u8)
    ensures
        s.write8(0x380051, v) == (BusView {
            rtc: s.rtc.pins_written((v / 2) % 2 == 1, (v / 4) % 2 == 1, v % 2 == 1),
            ..s
        }),
{
    stays(0x380051);
    single_bits(v);
}

/// A sound command written to `$320000` reaches the sound CPU, which is told; until it answers,
/// the reply reads with its top bit clear, and afterwards whole.
pub proof fn sound_latch_is_at_its_address(s: BusView, v: u8)
    ensures
        s.write8(0x320000, v) == (BusView {
            sound_cmd: v,
            sound_status: (s.sound_status - s.sound_status % 2) as u8,
            nmi_request: true,
            ..s
        }),
        s.sound_status % 2 == 1 ==> s.read8(0x320000) == s.sound_reply,
        s.sound_status % 2 == 0 ==> s.read8(0x320000) == s.sound_reply % 128,
{
    stays(0x320000);
    single_bits(s.sound_status);
    low_bits_are_remainders();
}

// ── Video controller ─────────────────────────────────────────────────────────

/// The video registers: VRAM address, data and step at `$3C0000`, `$3C0002` and `$3C0004`; the
/// word that is written lands at twice the address, high byte first, and the address then moves
/// on by the step.
pub proof fn vram_is_written_through_its_port(s: BusView, at: u16, step: u16, v: u16)
    requires
        s.wf(),
        at < 0x8800,
    ensures
        ({
            let t = s.write16(0x3C0000, at).write16(0x3C0004, step).write16(0x3C0002, v);
            &&& t.lspc.vram == s.lspc.vram.update(2 * at, (v / 256) as u8).update(2 * at + 1, (v % 256) as u8)
            &&& t.lspc.vram_addr == (at + step) % 0x1_0000
            &&& t.lspc.vram_mod == step
            &&& t.lspc.pal_ram == s.lspc.pal_ram
            &&& t.wram == s.wram
            &&& t.write16(0x3C0000, at).read16(0x3C0002) == v
        }),
{
    stays(0x3C0000);
    stays(0x3C0002);
    stays(0x3C0004);
    shifts_are_digits();
    low_bits_are_remainders();
    vstd::arithmetic::div_mod::lemma_small_mod((2 * at) as nat, 0x11000);
    vstd::arithmetic::div_mod::lemma_small_mod((2 * at + 1) as nat, 0x11000);
}

/// The raster timer is set in two halves, the high word at `$3C0008` and then the low word at
/// `$3C000A`, which starts it.
pub proof fn timer_is_set_in_two_halves(s: BusView, high: u16, low: u16)
    ensures
        ({
            let t = s.write16(0x3C0008, high).write16(0x3C000A, low).lspc;
            &&& t.timer_reload == high * 0x1_0000 + low
            &&& t.timer_counter == high * 0x1_0000 + low
            &&& t.timer_active
        }),
        s.write16(0x3C0008, high).lspc.timer_counter == s.lspc.timer_counter,
        s.write16(0x3C0008, high).lspc.timer_active == s.lspc.timer_active,
        s.write16(0x3C0008, high).lspc.timer_reload % 0x1_0000 == s.lspc.timer_reload % 0x1_0000,
        s.write16(0x3C000A, low).lspc.timer_reload / 0x1_0000 == s.lspc.timer_reload / 0x1_0000,
{
    stays(0x3C0008);
    stays(0x3C000A);
    let r = s.lspc.timer_reload;
    assert(((((r & 0x0000_FFFF) | ((high as u32) << 16)) & 0xFFFF_0000) | (low as u32)) == (high as u32) * 0x1_0000 + (
    low as u32) && ((r & 0x0000_FFFF) | ((high as u32) << 16)) % 0x1_0000 == r % 0x1_0000 && ((r & 0xFFFF_0000) | (
    low as u32)) / 0x1_0000 == r / 0x1_0000) by (bit_vector);
}

/// The mode register at `$3C0006`: animation speed in the high byte, interrupt control in the low
/// one.  Reading it gives the scanline, counted from 248, from bit 7 up and the animation frame
/// in the low three bits.
pub proof fn mode_register_has_its_fields(s: BusView, v: u16)
    ensures
        s.write16(0x3C0006, v).lspc.auto_anim_speed == v / 256,
        s.write16(0x3C0006, v).lspc.irq_control == v % 256,
        s.read16(0x3C0006) / 128 == s.lspc.scanline() + 248,
        s.read16(0x3C0006) % 8 == s.lspc.auto_anim_frame % 8,
        (s.read16(0x3C0006) / 8) % 16 == 0,
        0 <= s.lspc.scanline() <= 263,
{
    stays(0x3C0006);
    shifts_are_digits();
    low_bits_are_remainders();
    let (l, f) = ((s.lspc.scanline() + 0xF8) as u32, s.lspc.auto_anim_frame);
    let w = (((l & 0x1FF) << 7) | (f as u32 & 0x07)) as u16;
    assert(w / 128 == l && w % 8 == f % 8 && (w / 8) % 16 == 0) by (bit_vector)
        requires
            l <= 511,
            w == (((l & 0x1FF) << 7) | (f as u32 & 0x07)) as u16,
    ;
}

/// The beam takes 757 cycles for a line and starts anew after 200000.
pub proof fn beam_follows_the_clock(s: LspcView, n: u32)
    requires
        s.beam_cycles + n < 0x1_0000_0000,
    ensures
        s.after_cycles(n).beam_cycles == (s.beam_cycles + n) % 200000,
        s.beam_cycles < 199848 ==> 757 * s.scanline() <= s.beam_cycles < 757 * (s.scanline() + 1),
{
}

/// Writing to `$3C000C` takes back those interrupts whose bits are set, of the low three, and no
/// others; bit 0 of `$3C000E` says whether the timer stands still in the border.
pub proof fn interrupts_are_acknowledged_by_bit(s: BusView, v: u16)
    ensures
        ({
            let p = s.lspc.pending_irq;
            let q = s.write16(0x3C000C, v).lspc.pending_irq;
            &&& q / 8 == p / 8
            &&& q % 2 == (if v % 2 == 1 { 0 } else { p % 2 })
            &&& (q / 2) % 2 == (if (v / 2) % 2 == 1 { 0 } else { (p / 2) % 2 })
            &&& (q / 4) % 2 == (if (v / 4) % 2 == 1 { 0 } else { (p / 4) % 2 })
        }),
        s.write16(0x3C000E, v).lspc.timer_stop_in_border == (v % 2 == 1),
{
    stays(0x3C000C);
    stays(0x3C000E);
    low_bits_are_remainders();
    let p = s.lspc.pending_irq;
    let q = p & !((v as u8) & 0x07);
    assert(q / 8 == p / 8 && q % 2 == (if v % 2 == 1 { 0 } else { p % 2 }) && (q / 2) % 2 == (if (v / 2) % 2 == 1 {
        0
    } else {
        (p / 2) % 2
    }) && (q / 4) % 2 == (if (v / 4) % 2 == 1 { 0 } else { (p / 4) % 2 })) by (bit_vector)
        requires
            q == p & !((v as u8) & 0x07),
    ;
}

/// Interrupt levels: the cold boot at 3 before the timer at 2 before the V-blank at 1.
pub proof fn interrupts_have_their_levels(s: LspcView)
    ensures
        s.pending_irq % 2 == 1 ==> s.level() == 3,
        s.pending_irq % 2 == 0 && (s.pending_irq / 2) % 2 == 1 ==> s.level() == 2,
        s.pending_irq % 4 == 0 && (s.pending_irq / 4) % 2 == 1 ==> s.level() == 1,
        s.pending_irq % 8 == 0 ==> s.level() == 0,
{
    single_bits(s.pending_irq);
}

/// The timer counts half the processor's clock: set to `n`, it runs out after `2 * n` cycles and
/// no sooner, raises its interrupt where that is enabled (bit 4 of the control), and starts anew.
pub proof fn timer_runs_out_in_time(s: LspcView, n: u32, cycles: u32)
    requires
        s.timer_active,
        s.timer_subcycle == 0,
        s.timer_counter == n,
        n > 0,
        cycles < 0xFFFF_FFFF,
    ensures
        cycles < 2 * n ==> {
            &&& s.after_cycles(cycles).pending_irq == s.pending_irq
            &&& s.after_cycles(cycles).timer_counter == n - cycles / 2
        },
        cycles >= 2 * n ==> {
            &&& s.after_cycles(cycles).timer_counter == s.timer_reload
            &&& (s.irq_control / 16) % 2 == 1 ==> (s.after_cycles(cycles).pending_irq / 2) % 2 == 1
            &&& (s.irq_control / 16) % 2 == 0 ==> s.after_cycles(cycles).pending_irq == s.pending_irq
        },
        !(LspcView { timer_active: false, ..s }).after_cycles(cycles).timer_active,
        (LspcView { timer_active: false, ..s }).after_cycles(cycles).pending_irq == s.pending_irq,
{
    single_bits(s.irq_control);
    single_bits(s.pending_irq);
    single_bits(s.pending_irq | 0x02);
}

/// The V-blank raises the interrupt of level 1 and leaves the others.
pub proof fn vblank_raises_its_interrupt(s: BusView)
    ensures
        (s.at_vblank().lspc.pending_irq / 4) % 2 == 1,
        s.lspc.pending_irq % 8 == 0 ==> s.at_vblank().lspc.level() == 1,
        s.at_vblank() == (BusView { lspc: s.at_vblank().lspc, ..s }),
{
    let p = s.lspc.pending_irq;
    assert(((p | 0x04) / 4) % 2 == 1 && (p % 8 == 0 ==> (p | 0x04) % 8 == 4)) by (bit_vector);
    single_bits(p | 0x04);
}

/// The animation stays on a frame for `speed + 1` V-blanks and goes through eight frames.
pub proof fn animation_keeps_its_pace(s: LspcView)
    requires
        s.auto_anim_frame < 8,
    ensures
        s.auto_anim_timer < s.auto_anim_speed ==> {
            &&& s.after_vbl().auto_anim_frame == s.auto_anim_frame
            &&& s.after_vbl().auto_anim_timer == s.auto_anim_timer + 1
        },
        s.auto_anim_timer >= s.auto_anim_speed ==> {
            &&& s.after_vbl().auto_anim_frame == (s.auto_anim_frame + 1) % 8
            &&& s.after_vbl().auto_anim_timer == 0
        },
        s.after_vbl().vram == s.vram,
        s.after_vbl().pending_irq == s.pending_irq,
{
    low_bits_are_remainders();
}

// ── BIOS ─────────────────────────────────────────────────────────────────────

/// A BIOS that was stored with its bytes exchanged is put right, and one that was not is left
/// alone: its stack pointer starts with `$0010` or `$0011`.
pub proof fn exchanged_bios_is_put_right(bios: Seq<u8>)
    requires
        bios.len() >= 4,
        bios[0] == 0x00,
        bios[1] == 0x10 || bios[1] == 0x11,
    ensures
        bios_corrected(bios) == bios,
        bios_corrected(pairs_swapped(bios)) == bios,
{
    swap_pairs_twice(bios);
}

// ── Reset ────────────────────────────────────────────────────────────────────

/// A reset starts the board from the BIOS: its vectors stand at 0, the sound chip's line is clear,
/// the window shows the second megabyte and the system's fix tiles are shown; ROMs, work RAM, backup
/// RAM and memory card stay.
pub proof fn reset_starts_from_the_bios(s: BusView, k: u32)
    requires
        s.roms.bios_rom.len() > 0,
        s.roms.p_rom.len() > 0,
    ensures
        ({
            let t = s.after_reset();
            &&& k < 0x80 ==> t.read8(k) == s.roms.bios_rom[k as int % (s.roms.bios_rom.len() as int)]
            &&& k < 0x10_0000 && (s.cart.chip.intercept)(t.chip, (0x200000 + k) as u32) is None ==> t.read8(
                (0x200000 + k) as u32,
            ) == s.roms.p_rom[(0x10_0000 + k) % (s.roms.p_rom.len() as int)]
            &&& t.lspc.brd_fix
            &&& t.lspc.vram_mod == 1
            &&& t.lspc.level() == 0
            &&& !t.nmi_request
            &&& t.sound_status % 2 == 1
            &&& t.roms == s.roms
            &&& t.wram == s.wram
            &&& t.sram == s.sram
            &&& t.mem_card == s.mem_card
            &&& t.rtc == s.rtc
        }),
{
    if k < 0x10_0000 {
        stays(k);
        stays((0x200000 + k) as u32);
    }
    single_bits(0);
}

// ── Presentation and timing ──────────────────────────────────────────────────

/// `$300001` reads the DIP switches as they are set, or for a home system a fixed setting; registers
/// that hold nothing read all ones.
pub proof fn switches_are_read(s: BusView, a: u32)
    ensures
        s.presentation_aes != Some(true) ==> s.read8(0x300001) == s.hw_dips,
        s.presentation_aes == Some(true) ==> s.read8(0x300001) == 0xBF,
        0x3C0000 <= a <= 0x3FFFFF ==> s.read8(a) == 0xFF,
        0x340001 <= a <= 0x37FFFF ==> s.read8(a) == 0xFF,
{
    stays(0x300001);
    if a <= 0xFF_FFFF {
        stays(a);
    }
}

/// A home system that swaps the cartridge in has its arcade flag, at `$10FD82`, cleared; an arcade
/// system keeps it.
pub proof fn home_system_clears_its_flag(s: BusView, v: u8, b: u32)
    requires
        s.wf(),
        0x100000 <= b <= 0x10FFFF,
    ensures
        s.presentation_aes == Some(true) ==> s.write8(0x3A0013, v).read8(0x10FD82) == 0,
        b != 0x10FD82 ==> s.write8(0x3A0013, v).read8(b) == s.read8(b),
        s.presentation_aes != Some(true) ==> s.write8(0x3A0013, v).read8(b) == s.read8(b),
{
    stays(0x3A0013);
    stays(0x10FD82);
    stays(b);
}

/// Sixty frames, each of an active and a blanking period, take a second of the clock, and the beam
/// goes once over its 264 lines in each.
pub proof fn frames_fill_the_second()
    ensures
        60 * (CYCLES_PER_FRAME + VBLANK_CYCLES) == 12_000_000,
        60 * VBLANK_CYCLES == 1_800_000,
        crate::neogeo::rtc::ONE_SECOND == 12_000_000,
        60 * crate::neogeo::lspc::CYCLES_PER_BEAM_FRAME == 12_000_000,
        264 * crate::neogeo::lspc::CYCLES_PER_LINE <= crate::neogeo::lspc::CYCLES_PER_BEAM_FRAME,
        crate::neogeo::lspc::CYCLES_PER_BEAM_FRAME < 264 * (crate::neogeo::lspc::CYCLES_PER_LINE + 1),
{
}

// ── Long words ───────────────────────────────────────────────────────────────

/// A long word is read as two words, the high one at the lower address.
pub proof fn long_words_are_read_high_word_first(s: BusView, a: u32)
    ensures
        s.read32(a) == s.read16(a) * 0x1_0000 + s.after_read16(a).read16((a + 2) as u32),
        s.after_read16(a).open_bus == s.read16(a),
{
    let (h, l) = (s.read16(a), s.after_read16(a).read16((a + 2) as u32));
    assert((((h as u32) << 16) | (l as u32)) == h * 0x1_0000 + l) by {
        shifts_are_digits();
    }
}

/// A long word is written as two words, the high one at the lower address.
pub proof fn long_words_are_written_high_word_first(s: BusView, a: u32, v: u32)
    ensures
        s.write32(a, v) == s.write16(a, (v / 0x1_0000) as u16).write16((a + 2) as u32, (v % 0x1_0000) as u16),
{
    halves(0, 0, v);
    let (h, l) = ((v / 0x1_0000) as u16, (v % 0x1_0000) as u16);
    assert((v >> 16) as u16 == h);
    assert((v & 0xFFFF) as u16 == l);
    let t = s.write16(a, (v >> 16) as u16);
    assert(t.write16((a + 2) as u32, (v & 0xFFFF) as u16) == t.write16((a + 2) as u32, l));
}

/// The memory card is on the odd bytes; even ones, and bytes beyond the card, hold nothing.
pub proof fn memory_card_is_on_odd_bytes(s: BusView, k: u32)
    requires
        k < 0x800,
    ensures
        k >= s.mem_card.len() ==> s.read8((0x800001 + 2 * k) as u32) == 0xFF,
        s.read8((0x800000 + 2 * k) as u32) == s.open_bus / 0x100,
{
    stays((0x800001 + 2 * k) as u32);
    stays((0x800000 + 2 * k) as u32);
    halves(s.open_bus, 0, 0);
}

} // verus!
