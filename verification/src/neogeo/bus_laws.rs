//! Laws of the NeoGeo bus: what one access sees of another.

use crate::bits::{halves, low_bits_are_remainders, shifts_are_digits, single_bits};
use crate::bytes::split_word;
use crate::io::InputState;
use crate::neogeo::bus::{
    BusView, AES_TRAINING_HW_DIPS, BIOS_MVS_FLAG_OFF, MEMCARD_END, MEMCARD_START, PAL_END,
    PAL_START, PROM2_END, PROM2_START, REG_BANKSEL_END, REG_BANKSEL_START, REG_DIPSW, REG_SOUND,
    REG_SRAMEN, REG_SRAMLOCK, REG_STATUS_B, REG_SWPBIOS, REG_SWPROM, REG_VRAMADDR, REG_VRAMMOD,
    REG_VRAMRW, SRAM_END, SRAM_START, WRAM_END, WRAM_START,
};
use crate::neogeo::bus::{bank_base_for, mirrored};
use crate::neogeo::cart::{cart_model_for, cart_state_for, chip_form_is_kept, game_chip_restores};
use crate::neogeo::lspc::LspcView;
use crate::save_state::BusSnapshotView;
use vstd::prelude::*;

verus! {

/// A masked address is its own mask.
proof fn masked_twice(a: u32)
    ensures
        (a & 0x00FF_FFFF) & 0x00FF_FFFF == a & 0x00FF_FFFF,
        a & 0x00FF_FFFF <= 0x00FF_FFFF,
        a <= 0x00FF_FFFF ==> a & 0x00FF_FFFF == a,
{
    low_bits_are_remainders();
}

/// The address bus has 24 lines: the top eight bits of an address play no part.
pub proof fn address_has_24_bits(s: BusView, a: u32, v: u8)
    ensures
        s.read8(a & 0x00FF_FFFF) == s.read8(a),
        s.write8(a & 0x00FF_FFFF, v) == s.write8(a, v),
{
    masked_twice(a);
}

/// A byte written to work RAM reads back, and the write changes no other byte of the
/// address space.
pub proof fn wram_write_then_read(s: BusView, a: u32, v: u8, b: u32)
    requires
        s.wf(),
        WRAM_START <= a <= WRAM_END,
        b <= 0x00FF_FFFF,
        b != a,
    ensures
        s.write8(a, v).read8(a) == v,
        s.write8(a, v).read8(b) == s.read8(b),
{
    masked_twice(a);
    masked_twice(b);
}

/// Backup SRAM takes writes only while it is enabled; then a byte reads back and no other
/// byte of the address space changes.  Locked, nothing changes at all.
pub proof fn sram_write_protect(s: BusView, a: u32, v: u8, b: u32)
    requires
        s.wf(),
        SRAM_START <= a <= SRAM_END,
        b <= 0x00FF_FFFF,
        b != a,
    ensures
        s.sram_writable ==> s.write8(a, v).read8(a) == v,
        s.write8(a, v).read8(b) == s.read8(b),
        !s.sram_writable ==> s.write8(a, v) == s,
        s.write8(REG_SRAMEN, v).sram_writable,
        !s.write8(REG_SRAMLOCK, v).sram_writable,
{
    masked_twice(a);
    masked_twice(b);
    masked_twice(REG_SRAMEN);
    masked_twice(REG_SRAMLOCK);
}

/// A byte written to an odd memory-card address reads back; an even address carries no
/// data and shows the open bus.
pub proof fn memcard_odd_bytes(s: BusView, a: u32, v: u8)
    requires
        s.wf(),
        s.mem_card.len() == 0x800,
        MEMCARD_START <= a <= MEMCARD_END,
    ensures
        a % 2 == 1 ==> s.write8(a, v).read8(a) == v,
        a % 2 == 0 ==> s.write8(a, v) == s && s.read8(a) == (s.open_bus >> 8) as u8,
{
    masked_twice(a);
}

/// A palette byte reads back in the bank it was written to, and the other bank keeps its
/// own.
pub proof fn palette_banks_are_separate(s: BusView, a: u32, v: u8)
    requires
        s.wf(),
        PAL_START <= a <= PAL_END,
    ensures
        s.write8(a, v).read8(a) == v,
        ({
            let t = s.write8(a, v);
            let other = BusView { lspc: LspcView { pal_bank: !s.lspc.pal_bank, ..t.lspc }, ..t };
            let before = BusView { lspc: LspcView { pal_bank: !s.lspc.pal_bank, ..s.lspc }, ..s };
            other.read8(a) == before.read8(a)
        }),
{
    masked_twice(a);
}

/// A word written to work RAM that the cartridge does not claim reads back.
pub proof fn wram_word_then_read(s: BusView, a: u32, v: u16)
    requires
        s.wf(),
        WRAM_START <= a < WRAM_END,
        !(s.cart.chip.write_16)(s.chip, a, v).0,
    ensures
        s.write16(a, v).read16(a) == v,
        s.write16(a, v).open_bus == v,
        s.write16(a, v).wf(),
{
    masked_twice(a);
    masked_twice((a + 1) as u32);
    split_word(v);
}

/// No cartridge of a known game claims a write to work RAM.
pub proof fn carts_leave_work_ram_alone(name: Seq<char>, s: crate::neogeo::cart::ChipState, a: u32, v: u16)
    requires
        WRAM_START <= a <= WRAM_END,
    ensures
        !(cart_model_for(name).chip.write_16)(s, a, v).0,
{
}

/// What a word write to work RAM does: two bytes, the cartridge's turn and the open bus.
proof fn wram_word_effect(s: BusView, a: u32, v: u16)
    requires
        s.wf(),
        WRAM_START <= a < WRAM_END,
        !(s.cart.chip.write_16)(s.chip, a, v).0,
    ensures
        ({
            let t = s.write16(a, v);
            &&& t.wf()
            &&& t.cart == s.cart
            &&& t.wram == s.wram.update(a - WRAM_START, (v >> 8) as u8).update(
                a - WRAM_START + 1,
                (v & 0xFF) as u8,
            )
        }),
{
    masked_twice(a);
    masked_twice((a + 1) as u32);
}

/// A word read from work RAM is made of its two bytes.
proof fn wram_word_read(s: BusView, a: u32)
    requires
        s.wf(),
        WRAM_START <= a < WRAM_END,
    ensures
        s.read16(a) == ((s.wram[a - WRAM_START] as u16) << 8) | (s.wram[a - WRAM_START + 1] as u16),
        s.after_read16(a).wf(),
        s.after_read16(a).wram == s.wram,
{
    masked_twice(a);
    masked_twice((a + 1) as u32);
}

/// A long word written to work RAM that the cartridge does not claim reads back.
#[verifier::spinoff_prover]
#[verifier::rlimit(30)]
pub proof fn wram_long_then_read(s: BusView, a: u32, v: u32)
    requires
        s.wf(),
        WRAM_START <= a,
        a + 3 <= WRAM_END,
        forall|c: crate::neogeo::cart::ChipState, b: u32, w: u16|
            WRAM_START <= b <= WRAM_END ==> !(#[trigger] (s.cart.chip.write_16)(c, b, w)).0,
    ensures
        s.write32(a, v).read32(a) == v,
{
    let hi = (v >> 16) as u16;
    let lo = (v & 0xFFFF) as u16;
    let b = (a + 2) as u32;
    let t = s.write16(a, hi);
    wram_word_effect(s, a, hi);
    let u = t.write16(b, lo);
    wram_word_effect(t, b, lo);
    assert(s.write32(a, v) == u);
    wram_word_read(u, a);
    wram_word_read(u.after_read16(a), b);
    split_word(hi);
    split_word(lo);
    assert(u.read16(a) == hi);
    assert(u.after_read16(a).read16(b) == lo);
    halves(0, 0, v);
    shifts_are_digits();
}

/// A word written through the VRAM port lands at the VRAM address, which then advances by
/// the modulo; with the address set back, the port reads the word.
pub proof fn vram_port_round_trip(s: BusView, addr: u16, step: u16, v: u16)
    requires
        s.wf(),
    ensures
        ({
            let t = s.write16(REG_VRAMADDR, addr).write16(REG_VRAMMOD, step).write16(REG_VRAMRW, v);
            &&& t.lspc.vram_addr == addr.wrapping_add(step)
            &&& t.write16(REG_VRAMADDR, addr).read16(REG_VRAMRW) == v
        }),
{
    masked_twice(REG_VRAMADDR);
    masked_twice(REG_VRAMMOD);
    masked_twice(REG_VRAMRW);
    let p = s.write16(REG_VRAMADDR, addr).write16(REG_VRAMMOD, step);
    crate::neogeo::lspc::vram_write_then_read(p.lspc, v, addr);
    let t = p.write16(REG_VRAMRW, v);
    assert(t.write16(REG_VRAMADDR, addr).lspc =~= p.lspc.with_vram_word(v));
}

/// Selecting a bank moves the banked window there, if the program ROM reaches that far,
/// else to the first bank; a byte write selects like a word write.
pub proof fn bank_select_moves_window(s: BusView, reg: u32, value: u16, a: u32)
    requires
        s.wf(),
        s.roms.p_rom.len() > 0,
        REG_BANKSEL_START <= reg <= REG_BANKSEL_END,
        PROM2_START <= a <= PROM2_END,
    ensures
        s.write16(reg, value).read8(a) == mirrored(
            s.roms.p_rom,
            bank_base_for(s.roms.p_rom.len(), value) + (a - PROM2_START),
        ),
        value <= 0xFF ==> s.write8(reg, value as u8).read8(a) == s.write16(reg, value).read8(a),
{
    masked_twice(reg);
    masked_twice(a);
}

/// Addresses that nothing answers show the last word on the bus.
pub proof fn unmapped_shows_open_bus(s: BusView, a: u32)
    requires
        0x00E0_0000 <= a <= 0x00FF_FFFF,
    ensures
        s.read8(a) == (if a % 2 == 0 { (s.open_bus >> 8) as u8 } else { (s.open_bus & 0xFF) as u8 }),
{
    masked_twice(a);
}

/// Before `REG_SWPROM` the vectors at address 0 are the BIOS's, afterwards the
/// cartridge's; `REG_SWPBIOS` goes back.
pub proof fn vectors_follow_swap(s: BusView, a: u32, v: u8)
    requires
        s.wf(),
        s.roms.p_rom.len() >= 0x80,
        s.roms.bios_rom.len() > 0,
        a < 0x80,
        (s.cart.chip.intercept)(s.chip, a) is None,
    ensures
        s.write8(REG_SWPBIOS, v).read8(a) == mirrored(s.roms.bios_rom, a as int),
        s.write8(REG_SWPROM, v).read8(a) == s.roms.p_rom[a as int],
{
    masked_twice(a);
    masked_twice(REG_SWPBIOS);
    masked_twice(REG_SWPROM);
    assert(a as int % (s.roms.p_rom.len() as int) == a) by {
        vstd::arithmetic::div_mod::lemma_small_mod(a as nat, s.roms.p_rom.len());
    }
}

/// A sound command is latched for the Z80 and requests its interrupt; until the Z80
/// answers, the 68K reads the reply with bit 7 masked.
pub proof fn sound_command_handshake(s: BusView, v: u8)
    ensures
        s.write8(REG_SOUND, v).sound_cmd == v,
        s.write8(REG_SOUND, v).nmi_request,
        s.write8(REG_SOUND, v).read8(REG_SOUND) == s.sound_reply & 0x7F,
{
    masked_twice(REG_SOUND);
    single_bits(s.sound_status);
}

/// While AES is presented, bit 7 of `REG_STATUS_B` is low after every input and the DIP
/// register shows the training switches; while MVS is presented the bit is high and the
/// board's own switches show.
pub proof fn presentation_is_latched(s: BusView, input: InputState)
    ensures
        s.presentation_aes == Some(true) ==> {
            &&& s.input_applied(input).read8(REG_STATUS_B) & 0x80 == 0
            &&& s.input_applied(input).read8(REG_DIPSW) == AES_TRAINING_HW_DIPS
        },
        s.presentation_aes == Some(false) ==> {
            &&& s.input_applied(input).read8(REG_STATUS_B) & 0x80 == 0x80
            &&& s.input_applied(input).read8(REG_DIPSW) == s.hw_dips
        },
{
    masked_twice(REG_STATUS_B);
    masked_twice(REG_DIPSW);
    single_bits(input.sys);
}

/// Under an AES presentation the BIOS's MVS flag is zero after every input once the
/// cartridge runs, and untouched before.
pub proof fn aes_clears_mvs_flag(s: BusView, input: InputState)
    requires
        s.wf(),
        s.presentation_aes == Some(true),
    ensures
        s.swp_rom ==> s.input_applied(input).wram[BIOS_MVS_FLAG_OFF as int] == 0,
        !s.swp_rom ==> s.input_applied(input).wram == s.wram,
{
}

/// Restoring a snapshot on a bus with the same ROMs, cartridge and presentation gives back
/// the state it was taken in, whatever that bus did meanwhile: a queued M1 swap, which queues
/// one of the loaded ROMs, comes back too.
pub proof fn snapshot_restores(s: BusView, later: BusView)
    requires
        s.wf(),
        s.queues_loaded_rom(),
        later.roms == s.roms,
        later.cart == s.cart,
        later.presentation_aes == s.presentation_aes,
        (s.cart.chip.restored)(later.chip, (s.cart.chip.saved)(s.chip)) == s.chip,
    ensures
        later.restored(s.captured()) == s,
        s.captured().wf(),
{
    assert((s.bank_base as u32) as usize == s.bank_base);
}

/// A snapshot taken right after restoring one is that snapshot again, in every field, on a bus
/// with the same ROMs and cartridge.  What is queued, if anything, is no empty ROM.
pub proof fn restored_snapshot_is_taken_again(s: BusView, later: BusView)
    requires
        s.wf(),
        s.pending_m1_rom matches Some(rom) ==> rom.len() > 0,
        later.roms == s.roms,
        later.cart == s.cart,
        (s.cart.chip.restored)(later.chip, (s.cart.chip.saved)(s.chip)) == s.chip,
    ensures
        later.restored(s.captured()).captured() == s.captured(),
{
    assert((s.bank_base as u32) as usize == s.bank_base);
}

/// A register written leaves the cartridge and its chip alone, and queues none but a loaded ROM.
#[verifier::spinoff_prover]
proof fn register_keeps_queue(s: BusView, a: u32, v: u8)
    requires
        s.queues_loaded_rom(),
    ensures
        s.io_written(a, v).cart == s.cart,
        s.io_written(a, v).chip == s.chip,
        s.io_written(a, v).queues_loaded_rom(),
{
}

/// A byte written leaves the cartridge in its slot; its chip stays, or takes the byte.
#[verifier::spinoff_prover]
proof fn byte_reaches_chip(s: BusView, a: u32, v: u8)
    requires
        s.queues_loaded_rom(),
    ensures
        s.write8(a, v).cart == s.cart,
        s.write8(a, v).chip == s.chip || s.write8(a, v).chip == (s.cart.chip.write_8)(s.chip, a & 0x00FF_FFFF, v).1,
        s.write8(a, v).queues_loaded_rom(),
{
    register_keeps_queue(s, a & 0x00FF_FFFF, v);
}

/// A byte written keeps a game's board a board of that game.
proof fn byte_keeps_game(name: Seq<char>, s: BusView, a: u32, v: u8)
    requires
        s.runs_game(name),
    ensures
        s.write8(a, v).runs_game(name),
{
    byte_reaches_chip(s, a, v);
    chip_form_is_kept(name, s.chip, Seq::empty(), a & 0x00FF_FFFF, 0, v, Seq::empty());
}

/// A word written keeps a game's board a board of that game.
#[verifier::spinoff_prover]
proof fn word_keeps_game(name: Seq<char>, s: BusView, a: u32, v: u16)
    requires
        s.runs_game(name),
    ensures
        s.write16(a, v).runs_game(name),
{
    let m = a & 0x00FF_FFFF;
    chip_form_is_kept(name, s.chip, Seq::empty(), m, v, 0, Seq::empty());
    let offered = BusView { chip: (s.cart.chip.write_16)(s.chip, m, v).1, ..s };
    byte_keeps_game(name, offered, m, (v >> 8) as u8);
    byte_keeps_game(name, offered.write8(m, (v >> 8) as u8), (m + 1) as u32, (v & 0xFF) as u8);
}

/// A game's board stays one: at a reset, at every write, at every input and at a restore from
/// whatever snapshot.  A new bus with the cartridge of the game in its slot is one.
pub proof fn board_keeps_its_game(name: Seq<char>, s: BusView, a: u32, v8: u8, v16: u16, v32: u32, input: InputState, snap: BusSnapshotView)
    requires
        s.runs_game(name),
    ensures
        (BusView { cart: cart_model_for(name), chip: cart_state_for(name), ..BusView::power_on() }).runs_game(name),
        s.after_reset().runs_game(name),
        s.write8(a, v8).runs_game(name),
        s.write16(a, v16).runs_game(name),
        s.write32(a, v32).runs_game(name),
        s.input_applied(input).runs_game(name),
        s.restored(snap).runs_game(name),
{
    chip_form_is_kept(name, s.chip, Seq::empty(), a, v16, v8, snap.cart_state);
    byte_keeps_game(name, s, a, v8);
    word_keeps_game(name, s, a, v16);
    let hi = (v32 >> 16) as u16;
    word_keeps_game(name, s, a, hi);
    word_keeps_game(name, s.write16(a, hi), (a + 2) as u32, (v32 & 0xFFFF) as u16);
}

/// On two boards of one game with the same ROMs and presentation, restoring a snapshot gives
/// back the state it was taken in, and a snapshot taken then is the one that was restored.
pub proof fn game_snapshot_restores(name: Seq<char>, s: BusView, later: BusView)
    requires
        s.wf(),
        s.runs_game(name),
        later.runs_game(name),
        later.roms == s.roms,
        later.presentation_aes == s.presentation_aes,
    ensures
        later.restored(s.captured()) == s,
        later.restored(s.captured()).captured() == s.captured(),
        s.captured().wf(),
{
    game_chip_restores(name, s.chip, later.chip);
    snapshot_restores(s, later);
}

/// Two buses with the same ROMs, cartridge and presentation are in the same state after
/// restoring the same snapshot, if the chip's snapshot is complete: a rollback leaves
/// nothing of the abandoned frames behind.
pub proof fn restore_forgets_the_past(a: BusView, b: BusView, s: BusView)
    requires
        a.roms == b.roms,
        a.cart == b.cart,
        a.presentation_aes == b.presentation_aes,
        (a.cart.chip.restored)(a.chip, s.captured().cart_state) == (a.cart.chip.restored)(
            b.chip,
            s.captured().cart_state,
        ),
    ensures
        a.restored(s.captured()) == b.restored(s.captured()),
{
}

} // verus!
