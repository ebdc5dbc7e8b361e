//! Laws of the CPS boards as their programs see them, by address.

use crate::bits::{bits_by_weight, halves, shifts_are_digits};
use crate::cps::bus::CpsBusView;
use crate::cps::config::{is_sf2, is_sf2_board, is_sf2ce, CpsGame};
use crate::cps::machine::{
    active_cycles, cycles_per_frame, folded, in1_of, in2_of, lane_hash, level_of, CpsView, SLICE_CYCLES,
};
use crate::cps::sound::{SoundRead, SoundView, CLOCKS_PER_CHIP_SAMPLE, CYCLES_PER_FRAME, SAMPLES_PER_FRAME};
use crate::io::InputState;
use vstd::prelude::*;

verus! {

/// Whether the bit of a weight is low, that is whether its button is held.
pub open spec fn pressed(port: int, weight: int) -> bool {
    (port / weight) % 2 == 0
}

// ── Controls ─────────────────────────────────────────────────────────────────

/// A player's port: stick and first three buttons.
pub open spec fn shows_player(port: int, p: u8) -> bool {
    &&& pressed(port, 1) == pressed(p as int, 8)
    &&& pressed(port, 2) == pressed(p as int, 4)
    &&& pressed(port, 4) == pressed(p as int, 2)
    &&& pressed(port, 8) == pressed(p as int, 1)
    &&& pressed(port, 16) == pressed(p as int, 16)
    &&& pressed(port, 32) == pressed(p as int, 32)
    &&& pressed(port, 64) == pressed(p as int, 64)
    &&& !pressed(port, 128)
}

proof fn levels(p: u8)
    ensures
        level_of(p, 0) == (p as int) % 2,
        level_of(p, 1) == (p as int / 2) % 2,
        level_of(p, 2) == (p as int / 4) % 2,
        level_of(p, 3) == (p as int / 8) % 2,
        level_of(p, 4) == (p as int / 16) % 2,
        level_of(p, 5) == (p as int / 32) % 2,
        level_of(p, 6) == (p as int / 64) % 2,
        level_of(p, 7) == (p as int / 128) % 2,
{
    reveal_with_fuel(level_of, 9);
}

/// `$800001` reads player 1 and `$800000` player 2: right, left, down and up from bit 0, then the
/// first three buttons.
pub proof fn player_ports_show_their_players(b: CpsBusView, s: InputState)
    ensures
        shows_player(b.with_input(s).read8(0x800001) as int, s.p1),
        shows_player(b.with_input(s).read8(0x800000) as int, s.p2),
{
    player_byte(s.p1);
    player_byte(s.p2);
    halves(b.with_input(s).in1, 0, 0);
}

proof fn player_byte(p: u8)
    ensures
        0 <= in1_of(p) <= 255,
        shows_player(in1_of(p), p),
{
    levels(p);
    bits_by_weight(
        in1_of(p) as u8,
        level_of(p, 3) as u8,
        level_of(p, 2) as u8,
        level_of(p, 1) as u8,
        level_of(p, 0) as u8,
        level_of(p, 4) as u8,
        level_of(p, 5) as u8,
        level_of(p, 6) as u8,
        1,
    );
}

/// `$800018` reads the coins at bits 0 and 1, service at bit 3, the starts at bits 4 and 5; the
/// other bits are high.
pub proof fn system_port_shows_coins_and_starts(b: CpsBusView, s: InputState)
    ensures
        ({
            let port = b.with_input(s).read8(0x800018) as int;
            &&& pressed(port, 1) == pressed(s.coin as int, 1)
            &&& pressed(port, 2) == pressed(s.coin as int, 2)
            &&& pressed(port, 8) == pressed(s.coin as int, 4)
            &&& pressed(port, 16) == pressed(s.sys as int, 1)
            &&& pressed(port, 32) == pressed(s.sys as int, 4)
            &&& !pressed(port, 4)
            &&& !pressed(port, 64)
            &&& !pressed(port, 128)
        }),
        b.read8(0x80001a) == b.dswa,
        b.read8(0x80001c) == b.dswb,
        b.read8(0x80001e) == b.dswc,
        b.read8(0x800019) == 0xff,
{
    levels(s.coin);
    levels(s.sys);
    bits_by_weight(
        b.with_input(s).in0,
        level_of(s.coin, 0) as u8,
        level_of(s.coin, 1) as u8,
        1,
        level_of(s.coin, 2) as u8,
        level_of(s.sys, 0) as u8,
        level_of(s.sys, 2) as u8,
        1,
        1,
    );
    halves(0, b.with_input(s).in0, 0);
    halves(0, b.dswa, 0);
    halves(0, b.dswb, 0);
    halves(0, b.dswc, 0);
    halves(0, b.in0, 0);
}

/// On the boards of both games `$800176` reads the kicks: player 1's D, E and F from bit 0 and
/// player 2's from bit 4; the other bits are high.
pub proof fn kick_port_shows_extra_buttons(b: CpsBusView, s: InputState)
    requires
        is_sf2(b.game) || is_sf2ce(b.game),
    ensures
        ({
            let port = b.with_input(s).read16(0x800176) as int;
            &&& pressed(port, 1) == pressed(s.p1 as int, 128)
            &&& pressed(port, 2) == pressed(s.ext as int, 1)
            &&& pressed(port, 4) == pressed(s.ext as int, 2)
            &&& !pressed(port, 8)
            &&& pressed(port, 16) == pressed(s.p2 as int, 128)
            &&& pressed(port, 32) == pressed(s.ext as int, 4)
            &&& pressed(port, 64) == pressed(s.ext as int, 8)
            &&& !pressed(port, 128)
            &&& port / 256 == 255
        }),
{
    let low = 0x88 + in2_of(level_of(s.p1, 7), level_of(s.ext, 0), level_of(s.ext, 1)) + 16 * in2_of(
        level_of(s.p2, 7),
        level_of(s.ext, 2),
        level_of(s.ext, 3),
    );
    kick_byte(s, low);
    high_byte_hides_nothing(b.with_input(s).read16(0x800176) as int, low);
}

proof fn kick_byte(s: InputState, low: int)
    requires
        low == 0x88 + in2_of(level_of(s.p1, 7), level_of(s.ext, 0), level_of(s.ext, 1)) + 16 * in2_of(
            level_of(s.p2, 7),
            level_of(s.ext, 2),
            level_of(s.ext, 3),
        ),
    ensures
        0 <= low < 256,
        pressed(low, 1) == pressed(s.p1 as int, 128),
        pressed(low, 2) == pressed(s.ext as int, 1),
        pressed(low, 4) == pressed(s.ext as int, 2),
        !pressed(low, 8),
        pressed(low, 16) == pressed(s.p2 as int, 128),
        pressed(low, 32) == pressed(s.ext as int, 4),
        pressed(low, 64) == pressed(s.ext as int, 8),
        !pressed(low, 128),
{
    levels(s.p1);
    levels(s.p2);
    levels(s.ext);
    bits_by_weight(
        low as u8,
        level_of(s.p1, 7) as u8,
        level_of(s.ext, 0) as u8,
        level_of(s.ext, 1) as u8,
        1,
        level_of(s.p2, 7) as u8,
        level_of(s.ext, 2) as u8,
        level_of(s.ext, 3) as u8,
        1,
    );
}

proof fn high_byte_hides_nothing(port: int, low: int)
    requires
        0 <= low < 256,
        port == 0xff00 + low,
    ensures
        port / 256 == 255,
        pressed(port, 1) == pressed(low, 1),
        pressed(port, 2) == pressed(low, 2),
        pressed(port, 4) == pressed(low, 4),
        pressed(port, 8) == pressed(low, 8),
        pressed(port, 16) == pressed(low, 16),
        pressed(port, 32) == pressed(low, 32),
        pressed(port, 64) == pressed(low, 64),
        pressed(port, 128) == pressed(low, 128),
{
    assert(port / 2 == 0x7f80 + low / 2);
    assert(port / 4 == 0x3fc0 + low / 4);
    assert(port / 8 == 0x1fe0 + low / 8);
    assert(port / 16 == 0xff0 + low / 16);
    assert(port / 32 == 0x7f8 + low / 32);
    assert(port / 64 == 0x3fc + low / 64);
    assert(port / 128 == 0x1fe + low / 128);
}

// ── Memory map ───────────────────────────────────────────────────────────────

/// The memories by address: the program from 0, graphics RAM from `$900000`, work RAM from
/// `$FF0000`, all of them big-endian.
pub proof fn memories_are_where_they_belong(b: CpsBusView, k: u32)
    requires
        b.wf(),
    ensures
        2 * k + 1 < b.program.len() && 2 * k < 0x40_0000 ==> b.read16((2 * k) as u32) == b.program[2 * k] * 256
            + b.program[2 * k + 1],
        k < 0x1_8000 ==> b.read16((0x900000 + 2 * k) as u32) == b.gfxram[k as int],
        k < 0x8000 ==> b.read16((0xFF0000 + 2 * k) as u32) == b.work_ram[2 * k] * 256 + b.work_ram[2 * k + 1],
        k < 0x1_0000 ==> b.read8((0xFF0000 + k) as u32) == b.work_ram[k as int],
{
    shifts_are_digits();
    if k < 0x1_0000 {
        let j = if k % 2 == 0 { k as int } else { k - 1 };
        let (h, l) = (b.work_ram[j], b.work_ram[j + 1]);
        halves(((h as u16) << 8) | l as u16, 0, 0);
    }
}

/// Bytes are the halves of words, the high one at the even address; long words are two words, the
/// high one first.
pub proof fn words_are_big_endian(b: CpsBusView, a: u32)
    requires
        a % 2 == 0,
        a < 0xFFFF_FFFE,
    ensures
        b.read16(a) == b.read8(a) * 256 + b.read8((a + 1) as u32),
        b.read32(a) == b.read16(a) * 0x1_0000 + b.read16((a + 2) as u32),
{
    shifts_are_digits();
    halves(b.read16(a), 0, 0);
}

/// A word written is a word read, in graphics RAM and in work RAM; nothing else changes.
pub proof fn memories_take_writes(b: CpsBusView, k: u32, v: u16)
    requires
        b.wf(),
    ensures
        k < 0x1_8000 ==> b.write16((0x900000 + 2 * k) as u32, v) == (CpsBusView {
            gfxram: b.gfxram.update(k as int, v),
            ..b
        }),
        k < 0x8000 ==> b.write16((0xFF0000 + 2 * k) as u32, v) == (CpsBusView {
            work_ram: b.work_ram.update(2 * k, (v / 256) as u8).update(2 * k + 1, (v % 256) as u8),
            ..b
        }),
{
    halves(v, 0, 0);
}

/// The chips' registers: video from `$800100`, the second chip's from `$800140`.
pub proof fn registers_are_where_they_belong(b: CpsBusView, r: u32, v: u16)
    requires
        b.wf(),
        r < 0x20,
    ensures
        b.write16((0x800100 + 2 * r) as u32, v) == (CpsBusView { cps_a: b.cps_a.update(r as int, v), ..b }),
        b.write16((0x800140 + 2 * r) as u32, v) == (CpsBusView { cps_b: b.cps_b.update(r as int, v), ..b }),
{
}

/// The second chip identifies itself: on the first board `$800172` reads `$0401` whatever was
/// written.  On the second the register is as written; there the multiplier's results are not, and
/// on the first they are.
pub proof fn second_chip_identifies_itself(b: CpsBusView, x: u16)
    requires
        b.wf(),
    ensures
        is_sf2(b.game) ==> b.write16(0x800172, x).read16(0x800172) == 0x0401,
        is_sf2(b.game) ==> b.write16(0x800144, x).read16(0x800144) == x,
        is_sf2ce(b.game) ==> b.write16(0x800172, x).read16(0x800172) == x,
        is_sf2ce(b.game) ==> b.write16(0x800144, x).read16(0x800144) == b.read16(0x800144),
{
}

// ── Sound ────────────────────────────────────────────────────────────────────

/// A command that the main program writes to `$800181` is the one that the sound program reads at
/// `$F008` once it was handed on, and it is handed on once.
pub proof fn command_reaches_the_sound_program(m: CpsView, v: u8)
    requires
        m.bus.wf(),
    ensures
        ({
            let told = CpsView { bus: m.bus.write8(0x800181, v), ..m };
            let handed = told.command_forwarded();
            &&& told.bus == (CpsBusView { sound_latch: v, sound_latch_pending: true, ..m.bus })
            &&& handed.sound.read(0xF008) == SoundRead::Value(v)
            &&& handed.sound == (SoundView { soundlatch: v, ..m.sound })
            &&& handed.bus == (CpsBusView { sound_latch: v, sound_latch_pending: false, ..m.bus })
            &&& handed.command_forwarded() == handed
        }),
{
    halves(m.bus.read16(0x800180), v, 0);
}

/// The second command latch is at `$800189` and does not disturb the first.
pub proof fn second_latch_is_apart(b: CpsBusView, v: u8)
    requires
        b.wf(),
    ensures
        b.write8(0x800189, v) == (CpsBusView { sound_latch2: v, ..b }),
{
    halves(b.read16(0x800188), v, 0);
}

/// The sound program's map: ROM to `$7FFF`, a bank of 16 KB of what follows at `$8000`, chosen by
/// the low four bits written to `$F004`; RAM of 2 KB at `$D000`.
pub proof fn sound_map_is_as_wired(s: SoundView, bank: u8, k: u16, v: u8)
    requires
        s.wf(),
        k < 0x4000,
    ensures
        k < s.rom.len() ==> s.read(k) == SoundRead::Value(s.rom[k as int]),
        ({
            let at = 0x8000 + 0x4000 * (bank % 16) + k;
            s.written(0xF004, bank).read((0x8000 + k) as u16) == SoundRead::Value(
                if at < s.rom.len() { s.rom[at] } else { 0xff },
            )
        }),
        k < 0x800 ==> s.written((0xD000 + k) as u16, v) == (SoundView { ram: s.ram.update(k as int, v), ..s }),
        s.written(0xF002, v) == (SoundView { oki: s.oki.commanded(v), ..s }),
        v % 2 == 1 ==> s.written(0xF006, v).oki.rate == 7575,
        v % 2 == 0 ==> s.written(0xF006, v).oki.rate == 6060,
        s.read(0xF000) == SoundRead::ChipStatus,
        s.read(0xF001) == SoundRead::ChipStatus,
        s.read(0xF002) == SoundRead::Value(0),
{
    assert(s.bank * 0x4000 == 0x4000 * s.bank);
}

// ── Graphics ─────────────────────────────────────────────────────────────────

/// Where the boards of both games find their tiles, in tiles of the kind's own size: sprites from
/// 0, the 8-pixel layer's in a part of the third bank, those of the 16- and 32-pixel layers in
/// parts of the same bank, and none elsewhere.
#[verifier::rlimit(50)]
pub proof fn tiles_are_found_in_their_banks(g: CpsGame, c: i32)
    requires
        is_sf2_board(g),
        0 <= c <= 0xFFFF,
    ensures
        c < 0x9000 ==> g.mapped(1, c) == c,
        c >= 0x9000 ==> g.mapped(1, c) == -1,
        0x4000 <= c < 0x5000 ==> g.mapped(2, c) == 0x10000 + c,
        !(0x4000 <= c < 0x5000) ==> g.mapped(2, c) == -1,
        0x2800 <= c < 0x4000 ==> g.mapped(4, c) == 0x8000 + c,
        !(0x2800 <= c < 0x4000) ==> g.mapped(4, c) == -1,
        0x400 <= c < 0x800 ==> g.mapped(8, c) == 0x2000 + c,
        !(0x400 <= c < 0x800) ==> g.mapped(8, c) == -1,
{
    reveal_with_fuel(CpsGame::range_of, 7);
    reveal_with_fuel(CpsGame::bank_base, 4);
    assert((1i32 & 1 != 0) && (1i32 & 8 == 0) && (1i32 & 2 == 0) && (1i32 & 4 == 0) && (2i32 & 1 == 0) && (2i32 & 8
        == 0) && (2i32 & 2 != 0) && (2i32 & 4 == 0) && (4i32 & 1 == 0) && (4i32 & 8 == 0) && (4i32 & 2 == 0) && (4i32
        & 4 != 0) && (8i32 & 1 == 0) && (8i32 & 8 != 0) && (8i32 & 2 == 0) && (8i32 & 4 == 0) && (c << 0u32) == c && (
    c << 1u32) == c * 2 && (c << 3u32) == c * 8 && (forall|t: i32|
        0 <= t < 0x80_0000 ==> #[trigger] (t & 0x7fff) == t % 0x8000) && (forall|t: i32|
        0 <= t < 0x80_0000 ==> #[trigger] (t >> 0u32) == t) && (forall|t: i32|
        0 <= t < 0x80_0000 ==> #[trigger] (t >> 1u32) == t / 2) && (forall|t: i32|
        0 <= t < 0x80_0000 ==> #[trigger] (t >> 3u32) == t / 8)) by (bit_vector)
        requires
            0 <= c <= 0xFFFF,
    ;
}

// ── Timing ───────────────────────────────────────────────────────────────────

/// Sixty frames take a second of the processor's clock, short of it by less than a cycle each; of
/// 262 lines of a frame, 240 are shown.
pub proof fn frames_share_the_clock(g: CpsGame)
    ensures
        60 * cycles_per_frame(g) <= g.cpu_clock < 60 * (cycles_per_frame(g) + 1),
        262 * active_cycles(g) <= 240 * cycles_per_frame(g) < 262 * (active_cycles(g) + 1),
        is_sf2(g) ==> cycles_per_frame(g) == 166_666,
        is_sf2ce(g) ==> cycles_per_frame(g) == 200_000,
{
}

// ── Checksums ────────────────────────────────────────────────────────────────

/// A checksum starts from the hash's offset basis, each eighth byte is mixed into the lane of its
/// place by exclusive or and the hash's prime, and no lane sees the bytes of another.
pub proof fn lanes_hash_their_own_bytes(data: Seq<u8>, b: u8, k: int)
    requires
        0 <= k < 8,
    ensures
        lane_hash(Seq::empty(), k) == 14695981039346656037,
        data.len() % 8 == k ==> lane_hash(data.push(b), k) == ((lane_hash(data, k) ^ (b as u64)) * 1099511628211)
            % 0x1_0000_0000_0000_0000,
        data.len() % 8 != k ==> lane_hash(data.push(b), k) == lane_hash(data, k),
{
    assert(data.push(b).drop_last() =~= data);
}

/// Folding keeps every bit of a hash: changing one of its four quarters changes the checksum in
/// the same bits.
pub proof fn folding_keeps_every_bit(h: u64, d: u16, q: u64)
    requires
        q < 4,
    ensures
        folded(h ^ ((d as u64) << (16 * q as u64))) == folded(h) ^ d,
        folded(0) == 0,
{
    assert(q < 4 ==> ({
        let g = h ^ ((d as u64) << (16 * q) as u64);
        ((g ^ (g >> 16) ^ (g >> 32) ^ (g >> 48)) as u16) == ((h ^ (h >> 16) ^ (h >> 32) ^ (h >> 48)) as u16) ^ d
    }) && (0u64 ^ (0u64 >> 16) ^ (0u64 >> 32) ^ (0u64 >> 48)) as u16 == 0) by (bit_vector);
}

/// The sound board's periods: sixty frames of its program take a second of its 3.579545 MHz clock,
/// short of it by less than a cycle each, and give 44100 samples; the FM chip gives one in 64
/// cycles, and sixteen frames of samples are kept.
pub proof fn sound_frames_fill_the_second()
    ensures
        60 * CYCLES_PER_FRAME <= 3_579_545,
        3_579_545 < 60 * (CYCLES_PER_FRAME + 1),
        60 * SAMPLES_PER_FRAME == 44_100,
        CLOCKS_PER_CHIP_SAMPLE == 64,
        crate::cps::oki::RING_CAP == 16 * SAMPLES_PER_FRAME,
        crate::cps::oki::OUTPUT_RATE == 60 * SAMPLES_PER_FRAME,
        SLICE_CYCLES == 4000,
{
}

/// A long word is written as two words, the high one at the lower address.
pub proof fn long_words_are_high_word_first(b: CpsBusView, a: u32, high: u16, low: u16)
    requires
        a < 0xFFFF_FFFE,
    ensures
        b.write32(a, (high * 0x1_0000 + low) as u32) == b.write16(a, high).write16((a + 2) as u32, low),
{
    shifts_are_digits();
    halves(0, 0, (high * 0x1_0000 + low) as u32);
}

/// The command latches take any of their eight addresses; where nothing is mapped a write changes
/// nothing and a read gives all ones.
pub proof fn latches_fill_their_ranges(b: CpsBusView, a: u32, v: u16)
    requires
        b.wf(),
    ensures
        0x800180 <= a <= 0x800187 ==> b.write16(a, v) == (CpsBusView {
            sound_latch: (v % 256) as u8,
            sound_latch_pending: true,
            ..b
        }),
        0x800188 <= a <= 0x80018F ==> b.write16(a, v) == (CpsBusView { sound_latch2: (v % 256) as u8, ..b }),
        a < 0x800100 || 0x800190 <= a < 0x900000 || 0x930000 <= a < 0xFF0000 || a >= 0x100_0000 ==> b.write16(a, v) == b,
        0x400000 <= a < 0x800000 || 0x800002 <= a < 0x800018 || 0x800020 <= a < 0x800140 || 0x800180 <= a < 0x900000
            || 0x930000 <= a < 0xFF0000 || a >= 0x100_0000 ==> b.read16(a) == 0xFFFF,
        b.program.len() <= a + 1 < 0x400001 ==> b.read16(a) == 0xFFFF,
{
    halves(v, 0, 0);
}

/// Graphics RAM has 96 K words; beyond them it reads as zeros.
pub proof fn graphics_words_are_numbered(b: CpsBusView, k: int)
    requires
        b.wf(),
    ensures
        0 <= k < 0x1_8000 ==> b.gfx_word(k) == b.gfxram[k],
        k >= 0x1_8000 ==> b.gfx_word(k) == 0,
{
}

} // verus!
