//! Game cartridge handlers.
//!
//! A cartridge can need two kinds of game-specific behaviour: post-processing of its
//! P-ROM at load time ([`PRomDecryptor`]) and a protection chip that intercepts reads
//! and writes at run time ([`ProtectionChip`]).  [`ComposedCart`] wires an optional one
//! of each into the [`Cartridge`] that the bus holds.

use crate::bits::{halves, low_bits_are_remainders};
use crate::bytes::{be16, be32, from_le16, from_le32, le16, le32, pairs_swapped, swap_pairs};
use crate::codec::{
    deserialize_byte_vec, deserialize_registers, deserialize_u32, from_le64, le64, serialize_byte_vec,
    serialize_registers, serialize_u32,
};
use crate::text::str_eq;
use std::boxed::Box;
use vstd::prelude::*;

verus! {

// ── Models ───────────────────────────────────────────────────────────────────

/// What a protection chip remembers: its registers and its memory.
#[verifier::ext_equal]
pub struct ChipState {
    pub regs: Seq<int>,
    pub ram: Seq<u8>,
}

/// How a kind of protection chip behaves, as functions of what it remembers.
pub struct ChipModel {
    /// After the final P-ROM image was loaded.
    pub loaded: spec_fn(ChipState, Seq<u8>) -> ChipState,
    /// The byte that replaces a P-ROM read, if any.
    pub intercept: spec_fn(ChipState, u32) -> Option<u8>,
    /// A 16-bit write: whether it is consumed, and what is remembered afterwards.
    pub write_16: spec_fn(ChipState, u32, u16) -> (bool, ChipState),
    /// An 8-bit write, likewise.
    pub write_8: spec_fn(ChipState, u32, u8) -> (bool, ChipState),
    /// The bytes of a snapshot.
    pub saved: spec_fn(ChipState) -> Seq<u8>,
    /// After a restore from snapshot bytes.
    pub restored: spec_fn(ChipState, Seq<u8>) -> ChipState,
}

/// How a kind of cartridge behaves.
pub struct CartModel {
    /// The P-ROM image that the bus sees, from the raw one.
    pub rom: spec_fn(Seq<u8>) -> Seq<u8>,
    /// After a system reset.
    pub reset: spec_fn(ChipState) -> ChipState,
    /// The boot state compiled into its handler, if it has one.
    pub boot_state: Option<Seq<u8>>,
    pub chip: ChipModel,
}

impl ChipState {
    /// Nothing remembered.
    pub open spec fn none() -> ChipState {
        ChipState { regs: Seq::empty(), ram: Seq::empty() }
    }
}

impl ChipModel {
    /// A cartridge without a protection chip.
    pub open spec fn absent() -> ChipModel {
        ChipModel {
            loaded: |s: ChipState, rom: Seq<u8>| s,
            intercept: |s: ChipState, address: u32| Option::<u8>::None,
            write_16: |s: ChipState, address: u32, value: u16| (false, s),
            write_8: |s: ChipState, address: u32, value: u8| (false, s),
            saved: |s: ChipState| Seq::<u8>::empty(),
            restored: |s: ChipState, data: Seq<u8>| s,
        }
    }
}

// ── Traits ───────────────────────────────────────────────────────────────────

/// Per-cartridge hardware as the bus sees it.
pub trait Cartridge: Send + 'static {
    /// How this cartridge behaves; no operation changes it.
    spec fn model(&self) -> CartModel;

    /// What its protection chip remembers.
    spec fn state(&self) -> ChipState;

    /// Post-process raw P-ROM bytes.
    fn process_p_rom(&mut self, data: Vec<u8>) -> (r: Vec<u8>)
        ensures
            final(self).model() == old(self).model(),
            r@ == (old(self).model().rom)(data@),
            final(self).state() == (old(self).model().chip.loaded)(old(self).state(), r@),
    ;

    /// Reset internal cartridge state.
    fn reset(&mut self)
        ensures
            final(self).model() == old(self).model(),
            final(self).state() == (old(self).model().reset)(old(self).state()),
    ;

    /// `Some` byte to substitute for a P-ROM read; `None` to read the ROM.
    fn intercept_read_8(&self, address: u32) -> (r: Option<u8>)
        ensures
            r == (self.model().chip.intercept)(self.state(), address),
    ;

    /// Offer a 16-bit bus write; `true` where it was consumed.
    fn on_write_16(&mut self, address: u32, value: u16) -> (r: bool)
        ensures
            final(self).model() == old(self).model(),
            (r, final(self).state()) == (old(self).model().chip.write_16)(
                old(self).state(),
                address,
                value,
            ),
    ;

    /// Offer an 8-bit bus write.
    fn on_write_8(&mut self, address: u32, value: u8) -> (r: bool)
        ensures
            final(self).model() == old(self).model(),
            (r, final(self).state()) == (old(self).model().chip.write_8)(
                old(self).state(),
                address,
                value,
            ),
    ;

    /// Capture mutable cartridge state.
    fn snapshot(&self) -> (r: Vec<u8>)
        ensures
            r@ == (self.model().chip.saved)(self.state()),
    ;

    /// Restore mutable cartridge state.
    fn restore(&mut self, data: &[u8])
        ensures
            final(self).model() == old(self).model(),
            final(self).state() == (old(self).model().chip.restored)(old(self).state(), data@),
    ;

    /// A boot state compiled into the cartridge handler, if it has one.
    fn initial_match_state(&self) -> (r: Option<&'static [u8]>)
        ensures
            match r {
                Some(bytes) => self.model().boot_state == Some(bytes@),
                None => self.model().boot_state is None,
            },
    ;
}

/// Decrypts (or otherwise rearranges) P-ROM bytes at load time, after the universal
/// byteswap correction.
pub trait PRomDecryptor: Send + 'static {
    /// The image after decryption.
    spec fn decrypted(&self, data: Seq<u8>) -> Seq<u8>;

    fn decrypt(&self, data: &mut Vec<u8>)
        ensures
            final(data)@ == self.decrypted(old(data)@),
    ;
}

/// A hardware protection chip (CPLD / ALTERA) at run time.
pub trait ProtectionChip: Send + 'static {
    /// How this kind of chip behaves; no operation changes it.
    spec fn model(&self) -> ChipModel;

    /// What the chip remembers.
    spec fn state(&self) -> ChipState;

    /// Called once after the P-ROM was (optionally) decrypted.
    fn after_p_rom_load(&mut self, data: &[u8])
        ensures
            final(self).model() == old(self).model(),
            final(self).state() == (old(self).model().loaded)(old(self).state(), data@),
    ;

    /// See [`Cartridge::intercept_read_8`].
    fn intercept_read_8(&self, address: u32) -> (r: Option<u8>)
        ensures
            r == (self.model().intercept)(self.state(), address),
    ;

    /// See [`Cartridge::on_write_16`].
    fn on_write_16(&mut self, address: u32, value: u16) -> (r: bool)
        ensures
            final(self).model() == old(self).model(),
            (r, final(self).state()) == (old(self).model().write_16)(
                old(self).state(),
                address,
                value,
            ),
    ;

    /// See [`Cartridge::on_write_8`].
    fn on_write_8(&mut self, address: u32, value: u8) -> (r: bool)
        ensures
            final(self).model() == old(self).model(),
            (r, final(self).state()) == (old(self).model().write_8)(
                old(self).state(),
                address,
                value,
            ),
    ;

    /// Capture mutable chip state.
    fn snapshot(&self) -> (r: Vec<u8>)
        ensures
            r@ == (self.model().saved)(self.state()),
    ;

    /// Restore mutable chip state.
    fn restore(&mut self, data: &[u8])
        ensures
            final(self).model() == old(self).model(),
            final(self).state() == (old(self).model().restored)(old(self).state(), data@),
    ;
}

// ── ComposedCart ─────────────────────────────────────────────────────────────

/// A cartridge made of an optional [`PRomDecryptor`] and an optional
/// [`ProtectionChip`]; with neither it is a plain cart.
pub struct ComposedCart {
    decryptor: Option<Box<dyn PRomDecryptor>>,
    protection: Option<Box<dyn ProtectionChip>>,
}

/// The raw image after the byteswap correction and an optional decryption.
pub open spec fn composed_rom(decryptor: Option<Box<dyn PRomDecryptor>>, data: Seq<u8>) -> Seq<u8> {
    let fixed = byteswap_corrected(data);
    match decryptor {
        Some(d) => d.decrypted(fixed),
        None => fixed,
    }
}

/// The behaviour of a cartridge composed of these parts.
pub open spec fn composed_model(
    decryptor: Option<Box<dyn PRomDecryptor>>,
    protection: Option<Box<dyn ProtectionChip>>,
) -> CartModel {
    CartModel {
        rom: |data: Seq<u8>| composed_rom(decryptor, data),
        reset: |s: ChipState| s,
        boot_state: None,
        chip: match protection {
            Some(p) => p.model(),
            None => ChipModel::absent(),
        },
    }
}

/// What a composed cartridge remembers.
pub open spec fn composed_state(protection: Option<Box<dyn ProtectionChip>>) -> ChipState {
    match protection {
        Some(p) => p.state(),
        None => ChipState::none(),
    }
}

impl ComposedCart {
    pub closed spec fn decryptor(&self) -> Option<Box<dyn PRomDecryptor>> {
        self.decryptor
    }

    pub closed spec fn protection(&self) -> Option<Box<dyn ProtectionChip>> {
        self.protection
    }

    pub fn new(
        decryptor: Option<Box<dyn PRomDecryptor>>,
        protection: Option<Box<dyn ProtectionChip>>,
    ) -> (r: Self)
        ensures
            r.decryptor() == decryptor,
            r.protection() == protection,
    {
        ComposedCart { decryptor, protection }
    }
}

impl Cartridge for ComposedCart {
    open spec fn model(&self) -> CartModel {
        composed_model(self.decryptor(), self.protection())
    }

    open spec fn state(&self) -> ChipState {
        composed_state(self.protection())
    }

    fn process_p_rom(&mut self, data: Vec<u8>) -> (r: Vec<u8>) {
        let mut data = data;
        byteswap_p_rom_if_needed(&mut data);
        if let Some(d) = &self.decryptor {
            d.decrypt(&mut data);
        }
        if let Some(p) = &mut self.protection {
            p.after_p_rom_load(data.as_slice());
        }
        data
    }

    fn reset(&mut self) {
    }

    fn intercept_read_8(&self, address: u32) -> (r: Option<u8>) {
        match &self.protection {
            Some(p) => p.intercept_read_8(address),
            None => None,
        }
    }

    fn on_write_16(&mut self, address: u32, value: u16) -> (r: bool) {
        match &mut self.protection {
            Some(p) => p.on_write_16(address, value),
            None => false,
        }
    }

    fn on_write_8(&mut self, address: u32, value: u8) -> (r: bool) {
        match &mut self.protection {
            Some(p) => p.on_write_8(address, value),
            None => false,
        }
    }

    fn snapshot(&self) -> (r: Vec<u8>) {
        match &self.protection {
            Some(p) => p.snapshot(),
            None => Vec::new(),
        }
    }

    fn restore(&mut self, data: &[u8]) {
        if let Some(p) = &mut self.protection {
            p.restore(data);
        }
    }

    fn initial_match_state(&self) -> (r: Option<&'static [u8]>) {
        None
    }
}

// ── Byteswap correction ──────────────────────────────────────────────────────

/// Whether a P-ROM image is byteswapped: read as it stands, its initial stack pointer
/// lies above `$200000`; read with swapped bytes it is even and does not.
pub open spec fn looks_byteswapped(rom: Seq<u8>) -> bool {
    &&& rom.len() >= 8
    &&& be32(rom[0], rom[1], rom[2], rom[3]) > 0x0020_0000
    &&& be32(rom[1], rom[0], rom[3], rom[2]) <= 0x0020_0000
    &&& be32(rom[1], rom[0], rom[3], rom[2]) & 1 == 0
}

/// The image with a byteswap undone where there was one.
pub open spec fn byteswap_corrected(rom: Seq<u8>) -> Seq<u8> {
    if looks_byteswapped(rom) { pairs_swapped(rom) } else { rom }
}

/// Detect and correct a byteswapped P-ROM in place.
pub fn byteswap_p_rom_if_needed(rom: &mut Vec<u8>)
    ensures
        final(rom)@ == byteswap_corrected(old(rom)@),
{
    if rom.len() < 8 {
        return;
    }
    let ssp_be: u32 = ((rom[0] as u32) << 24) | ((rom[1] as u32) << 16) | ((rom[2] as u32) << 8) | (
    rom[3] as u32);
    let ssp_sw: u32 = ((rom[1] as u32) << 24) | ((rom[0] as u32) << 16) | ((rom[3] as u32) << 8) | (
    rom[2] as u32);
    if ssp_be > 0x0020_0000 && ssp_sw <= 0x0020_0000 && (ssp_sw & 1) == 0 {
        swap_pairs(rom);
    }
}

// ── KoF '98 ──────────────────────────────────────────────────────────────────

/// The offsets, within a 16-byte row, of the words that a scrambled row draws from.
pub open spec fn kof98_row_source(k: u32) -> u32 {
    if k == 0 { 0 } else if k == 2 { 0x100000 } else if k == 4 { 0x000004 } else if k == 6 { 0x100004 }
    else if k == 8 { 0x10000a } else if k == 10 { 0x00000a } else if k == 12 { 0x10000e }
    else { 0x00000e }
}

/// Where the decrypted byte at `i` (from `$800` to the end of the first megabyte) comes
/// from in the 2 MB image.
pub open spec fn kof98_source(i: u32) -> u32 {
    let k = i & 0xe;
    if i & 0xfe == 0 {
        i
    } else if i & 0xfe == 2 {
        (i ^ 2) | 0x100000
    } else if i >= 0x80000 && (k == 0 || k == 4 || k == 10 || k == 14) {
        if i < 0xc0000 { i } else { i ^ 0x100 }
    } else {
        ((i & 0xffff_fff1) ^ 0x100) | kof98_row_source(k)
    }
}

/// The decrypted image: the first megabyte rearranged above `$800`, then what followed
/// the second megabyte (or, without anything there, the second megabyte itself).
pub open spec fn kof98_decrypted(rom: Seq<u8>) -> Seq<u8> {
    if rom.len() < 0x200000 {
        rom
    } else {
        let low = Seq::new(
            0x100000,
            |i: int| if i < 0x800 { rom[i] } else { rom[kof98_source(i as u32) as int] },
        );
        if rom.len() > 0x200000 {
            low + rom.subrange(0x200000, rom.len() as int)
        } else {
            low + rom.subrange(0x100000, 0x200000)
        }
    }
}

/// The jump to the lock-up screen at one of the two anti-piracy traps.
pub open spec fn kof98_trap_code() -> Seq<u8> {
    seq![0x4E, 0xF9, 0x00, 0x00, 0xB4, 0xCC]
}

/// Three no-operation instructions.
pub open spec fn kof98_trap_nops() -> Seq<u8> {
    seq![0x4E, 0x71, 0x4E, 0x71, 0x4E, 0x71]
}

/// The image with the trap at `off` disarmed, if the trap is there.
pub open spec fn kof98_trap_disarmed(rom: Seq<u8>, off: int) -> Seq<u8> {
    if off + 6 <= rom.len() && rom.subrange(off, off + 6) =~= kof98_trap_code() {
        rom.subrange(0, off) + kof98_trap_nops() + rom.subrange(off + 6, rom.len() as int)
    } else {
        rom
    }
}

/// The same rearrangement as an exchange of address lines, for the first megabyte.
pub open spec fn kof98_address_lines(i: u32) -> u32 {
    let j0 = i;
    let j1 = if i & 0x0000fc == 0x000000 { j0 ^ 0x000100 } else { j0 };
    let j2 = if i & 0x0c0000 != 0x080000 { j1 ^ 0x000100 } else { j1 };
    let j3 = if i & 0x0c0008 == 0x080008 { j2 ^ 0x000100 } else { j2 };
    let j4 = if i & 0x0c00fe == 0x080000 { j3 ^ 0x000100 } else { j3 };
    let j5 = if i & 0x0c0002 == 0x080002 { j4 ^ 0x000100 } else { j4 };
    let j6 = if i & 0x100000 == 0x100000 { j5 ^ 0x000102 } else { j5 };
    let j7 = if i & 0x000002 == 0x000002 { j6 ^ 0x100002 } else { j6 };
    if i & 0x000008 == 0x000008 { j7 ^ 0x100002 } else { j7 }
}

/// The decryption is the address-line exchange of the board's CPLD, at every address of
/// the first megabyte above the vectors.
pub proof fn kof98_decryption_is_address_exchange(i: u32)
    requires
        0x800 <= i < 0x100000,
    ensures
        kof98_source(i) == kof98_address_lines(i),
        kof98_source(i) < 0x200000,
{
    assert(kof98_source(i) == kof98_address_lines(i) && kof98_source(i) < 0x200000) by (bit_vector)
        requires
            0x800 <= i < 0x100000,
    ;
}

fn kof98_source_at(i: u32) -> (r: u32)
    requires
        0x800 <= i < 0x100000,
    ensures
        r == kof98_source(i),
        r < 0x200000,
{
    proof {
        kof98_decryption_is_address_exchange(i);
    }
    let k: u32 = i & 0xe;
    if i & 0xfe == 0 {
        i
    } else if i & 0xfe == 2 {
        (i ^ 2) | 0x100000
    } else if i >= 0x80000 && (k == 0 || k == 4 || k == 10 || k == 14) {
        if i < 0xc0000 { i } else { i ^ 0x100 }
    } else {
        let row: u32 = if k == 0 { 0 } else if k == 2 { 0x100000 } else if k == 4 { 0x000004 }
            else if k == 6 { 0x100004 } else if k == 8 { 0x10000a } else if k == 10 { 0x00000a }
            else if k == 12 { 0x10000e } else { 0x00000e };
        ((i & 0xffff_fff1) ^ 0x100) | row
    }
}

/// KoF '98 P-ROM decryption.
///
/// `242-p1.p1` stores scrambled code in the lower 1 MB with parts of it in the upper
/// 1 MB.  Afterwards the lower half holds valid 68k code and the sp2 extension, where
/// there is one, stands at `$100000`.
pub fn decrypt_68k_kof98(p_rom: &mut Vec<u8>)
    ensures
        final(p_rom)@ == kof98_decrypted(old(p_rom)@),
{
    if p_rom.len() < 0x200000 {
        return;
    }
    let n: usize = p_rom.len();
    let mut out: Vec<u8> = Vec::with_capacity(n - 0x100000);
    let mut i: u32 = 0;
    while i < 0x100000
        invariant
            p_rom@.len() >= 0x200000,
            i <= 0x100000,
            out@.len() == i,
            forall|k: int|
                0 <= k < i ==> #[trigger] out@[k] == (if k < 0x800 {
                    p_rom@[k]
                } else {
                    p_rom@[kof98_source(k as u32) as int]
                }),
        decreases 0x100000 - i,
    {
        let src: u32 = if i < 0x800 { i } else { kof98_source_at(i) };
        out.push(p_rom[src as usize]);
        i = i + 1;
    }
    let mut at: usize = if n > 0x200000 { 0x200000 } else { 0x100000 };
    let ghost start = at as int;
    let ghost low = out@;
    assert(low =~= Seq::new(
        0x100000,
        |i: int| if i < 0x800 { p_rom@[i] } else { p_rom@[kof98_source(i as u32) as int] },
    ));
    while at < n
        invariant
            n == p_rom@.len(),
            start <= at <= n,
            out@ == low + p_rom@.subrange(start, at as int),
            0 <= start,
        decreases n - at,
    {
        out.push(p_rom[at]);
        at = at + 1;
        assert(out@ =~= low + p_rom@.subrange(start, at as int));
    }
    *p_rom = out;
}

fn disarm_kof98_trap(data: &mut Vec<u8>, off: usize)
    requires
        off <= 0x10000,
    ensures
        final(data)@ == kof98_trap_disarmed(old(data)@, off as int),
{
    if off + 6 <= data.len() && data[off] == 0x4E && data[off + 1] == 0xF9 && data[off + 2] == 0x00
        && data[off + 3] == 0x00 && data[off + 4] == 0xB4 && data[off + 5] == 0xCC {
        assert(data@.subrange(off as int, off + 6) =~= kof98_trap_code());
        data.set(off, 0x4E);
        data.set(off + 1, 0x71);
        data.set(off + 2, 0x4E);
        data.set(off + 3, 0x71);
        data.set(off + 4, 0x4E);
        data.set(off + 5, 0x71);
        assert(data@ =~= kof98_trap_disarmed(old(data)@, off as int));
    } else {
        proof {
            if off + 6 <= data@.len() {
                let s = data@.subrange(off as int, off + 6);
                assert(s[0] == data@[off as int] && s[1] == data@[off + 1] && s[2] == data@[off + 2]
                    && s[3] == data@[off + 3] && s[4] == data@[off + 4] && s[5] == data@[off + 5]);
            }
        }
    }
}

/// KoF '98 P-ROM decryptor.  Besides the decryption it disarms the two anti-piracy traps,
/// whose run-time markers this board does not reproduce.
pub struct Kof98Decryptor;

impl PRomDecryptor for Kof98Decryptor {
    open spec fn decrypted(&self, data: Seq<u8>) -> Seq<u8> {
        kof98_trap_disarmed(kof98_trap_disarmed(kof98_decrypted(data), 0x9F48), 0x9FBE)
    }

    fn decrypt(&self, data: &mut Vec<u8>) {
        decrypt_68k_kof98(data);
        disarm_kof98_trap(data, 0x9F48);
        disarm_kof98_trap(data, 0x9FBE);
    }
}

/// KoF '98 ALTERA copy-protection chip.
///
/// Writes to `$20AAAA` choose what reads of `$000100-$000103` (and the mirror at
/// `$000400`) return: forged words in states 1 and 2, the ROM's own bytes in state 0.
pub struct Kof98Protection {
    prot_state: u8,
    prot_reg: u16,
    default_rom: [u16; 2],
}

/// The chip state that a register value selects.
pub open spec fn kof98_state_of(reg: u16) -> u8 {
    if reg == 0x0090 { 1 } else if reg == 0x00F0 { 2 } else { 0 }
}

/// What the chip remembers, from its four registers.
pub open spec fn kof98_regs(state: u8, reg: u16, w0: u16, w1: u16) -> ChipState {
    ChipState { regs: seq![state as int, reg as int, w0 as int, w1 as int], ram: Seq::empty() }
}

/// The chip after its register was set.
pub open spec fn kof98_with_reg(s: ChipState, reg: u16) -> ChipState {
    kof98_regs(kof98_state_of(reg), reg, s.regs[2] as u16, s.regs[3] as u16)
}

/// The forged byte at an address, if the chip forges there.
pub open spec fn kof98_intercept(s: ChipState, address: u32) -> Option<u8> {
    let local = if 0x100 <= address <= 0x103 { address - 0x100 } else { address - 0x400 };
    let w0: u16 = if s.regs[0] == 1 { 0x00C2 } else if s.regs[0] == 2 { 0x4E45 } else { s.regs[2] as u16 };
    let w1: u16 = if s.regs[0] == 1 { 0x00FD } else if s.regs[0] == 2 { 0x4F2D } else { s.regs[3] as u16 };
    let word = if local < 2 { w0 } else { w1 };
    if !(0x100 <= address <= 0x103 || 0x400 <= address <= 0x403) || s.regs[0] == 0 {
        None
    } else if local % 2 == 0 {
        Some((word >> 8) as u8)
    } else {
        Some((word & 0xFF) as u8)
    }
}

/// Behaviour of [`Kof98Protection`].
pub open spec fn kof98_chip_model() -> ChipModel {
    ChipModel {
        loaded: |s: ChipState, rom: Seq<u8>|
            if rom.len() >= 0x104 {
                kof98_regs(
                    s.regs[0] as u8,
                    s.regs[1] as u16,
                    be16(rom[0x100], rom[0x101]),
                    be16(rom[0x102], rom[0x103]),
                )
            } else {
                s
            },
        intercept: |s: ChipState, address: u32| kof98_intercept(s, address),
        write_16: |s: ChipState, address: u32, value: u16|
            if address == 0x20AAAA { (true, kof98_with_reg(s, value)) } else { (false, s) },
        write_8: |s: ChipState, address: u32, value: u8|
            if address == 0x20AAAA {
                (true, kof98_with_reg(s, (s.regs[1] as u16 & 0x00FF) | ((value as u16) << 8)))
            } else if address == 0x20AAAB {
                (true, kof98_with_reg(s, (s.regs[1] as u16 & 0xFF00) | (value as u16)))
            } else {
                (false, s)
            },
        saved: |s: ChipState|
            seq![s.regs[0] as u8] + le16(s.regs[1] as u16) + le16(s.regs[2] as u16) + le16(
                s.regs[3] as u16,
            ),
        restored: |s: ChipState, data: Seq<u8>|
            if data.len() >= 7 {
                kof98_regs(
                    data[0],
                    from_le16(data[1], data[2]),
                    from_le16(data[3], data[4]),
                    from_le16(data[5], data[6]),
                )
            } else {
                s
            },
    }
}

impl Kof98Protection {
    pub closed spec fn regs(&self) -> ChipState {
        kof98_regs(self.prot_state, self.prot_reg, self.default_rom[0], self.default_rom[1])
    }

    pub fn new() -> (r: Self)
        ensures
            r.state() == kof98_regs(0, 0, 0, 0),
    {
        Kof98Protection { prot_state: 0, prot_reg: 0, default_rom: [0, 0] }
    }

    fn set_reg(&mut self, reg: u16)
        ensures
            final(self).state() == kof98_with_reg(old(self).state(), reg),
    {
        self.prot_reg = reg;
        self.update_state();
    }

    fn update_state(&mut self)
        ensures
            final(self).state() == kof98_with_reg(
                old(self).state(),
                old(self).state().regs[1] as u16,
            ),
    {
        self.prot_state =
        if self.prot_reg == 0x0090 { 1 } else if self.prot_reg == 0x00F0 { 2 } else { 0 };
    }
}

impl Default for Kof98Protection {
    fn default() -> (r: Self)
        ensures
            r.state() == kof98_regs(0, 0, 0, 0),
    {
        Self::new()
    }
}

impl ProtectionChip for Kof98Protection {
    open spec fn model(&self) -> ChipModel {
        kof98_chip_model()
    }

    open spec fn state(&self) -> ChipState {
        self.regs()
    }

    fn after_p_rom_load(&mut self, data: &[u8]) {
        if data.len() >= 0x104 {
            self.default_rom = [
                ((data[0x100] as u16) << 8) | (data[0x101] as u16),
                ((data[0x102] as u16) << 8) | (data[0x103] as u16),
            ];
        }
    }

    fn intercept_read_8(&self, address: u32) -> (r: Option<u8>) {
        let local: u32 = if 0x100 <= address && address <= 0x103 {
            address - 0x100
        } else if 0x400 <= address && address <= 0x403 {
            address - 0x400
        } else {
            return None;
        };
        if self.prot_state == 0 {
            return None;
        }
        let w0: u16 = if self.prot_state == 1 { 0x00C2 } else if self.prot_state == 2 { 0x4E45 } else {
            self.default_rom[0] };
        let w1: u16 = if self.prot_state == 1 { 0x00FD } else if self.prot_state == 2 { 0x4F2D } else {
            self.default_rom[1] };
        let word: u16 = if local < 2 { w0 } else { w1 };
        if local % 2 == 0 { Some((word >> 8) as u8) } else { Some((word & 0xFF) as u8) }
    }

    fn on_write_16(&mut self, address: u32, value: u16) -> (r: bool) {
        if address != 0x20AAAA {
            return false;
        }
        self.set_reg(value);
        true
    }

    fn on_write_8(&mut self, address: u32, value: u8) -> (r: bool) {
        if address == 0x20AAAA {
            self.set_reg((self.prot_reg & 0x00FF) | ((value as u16) << 8));
            true
        } else if address == 0x20AAAB {
            self.set_reg((self.prot_reg & 0xFF00) | (value as u16));
            true
        } else {
            false
        }
    }

    fn snapshot(&self) -> (r: Vec<u8>) {
        serialize_registers((self.prot_state, self.prot_reg, self.default_rom))
    }

    fn restore(&mut self, data: &[u8]) {
        if let Some(state) = deserialize_registers(data) {
            self.prot_state = state.0;
            self.prot_reg = state.1;
            self.default_rom = state.2;
        }
    }
}

/// KoF '98 cartridge: its decryptor with its protection chip.
pub struct Kof98Cart {
    composed: ComposedCart,
}

/// Behaviour of [`Kof98Cart`].
pub open spec fn kof98_cart_model() -> CartModel {
    CartModel {
        rom: |data: Seq<u8>| Kof98Decryptor.decrypted(byteswap_corrected(data)),
        reset: |s: ChipState| s,
        boot_state: None,
        chip: kof98_chip_model(),
    }
}

impl Kof98Cart {
    pub closed spec fn inner(&self) -> ComposedCart {
        self.composed
    }

    pub fn new() -> (r: Self)
        ensures
            r.model() == kof98_cart_model(),
            r.state() == kof98_regs(0, 0, 0, 0),
    {
        let decryptor = Box::new(Kof98Decryptor);
        let protection = Box::new(Kof98Protection::new());
        let r = Kof98Cart { composed: ComposedCart::new(Some(decryptor), Some(protection)) };
        assert(r.model().rom =~= kof98_cart_model().rom);
        assert(r.model().reset =~= kof98_cart_model().reset);
        r
    }
}

impl Cartridge for Kof98Cart {
    open spec fn model(&self) -> CartModel {
        self.inner().model()
    }

    open spec fn state(&self) -> ChipState {
        self.inner().state()
    }

    fn process_p_rom(&mut self, data: Vec<u8>) -> (r: Vec<u8>) {
        self.composed.process_p_rom(data)
    }

    fn reset(&mut self) {
        self.composed.reset();
    }

    fn intercept_read_8(&self, address: u32) -> (r: Option<u8>) {
        self.composed.intercept_read_8(address)
    }

    fn on_write_16(&mut self, address: u32, value: u16) -> (r: bool) {
        self.composed.on_write_16(address, value)
    }

    fn on_write_8(&mut self, address: u32, value: u8) -> (r: bool) {
        self.composed.on_write_8(address, value)
    }

    fn snapshot(&self) -> (r: Vec<u8>) {
        self.composed.snapshot()
    }

    fn restore(&mut self, data: &[u8]) {
        self.composed.restore(data);
    }

    fn initial_match_state(&self) -> (r: Option<&'static [u8]>) {
        None
    }
}

// ── SMA ──────────────────────────────────────────────────────────────────────

/// SMA protection chip (KoF '99 and others): a shift-register random number that every
/// 16-bit write advances.
pub struct SmaProtection {
    rng: u32,
}

/// What an SMA chip remembers.
pub open spec fn sma_regs(rng: u32) -> ChipState {
    ChipState { regs: seq![rng as int], ram: Seq::empty() }
}

/// The next random number: 20 bits, shifted left, with taps 0, 2, 3 and 5 fed in.
pub open spec fn sma_next(rng: u32) -> u32 {
    ((rng << 1) | ((rng ^ (rng >> 2) ^ (rng >> 3) ^ (rng >> 5)) & 1)) & 0x0F_FFFF
}

/// Behaviour of [`SmaProtection`].
pub open spec fn sma_chip_model() -> ChipModel {
    ChipModel {
        loaded: |s: ChipState, rom: Seq<u8>| s,
        intercept: |s: ChipState, address: u32|
            if address == 0x2FFC00 || address == 0x2FFCC0 {
                Some(((s.regs[0] as u32 >> 8) & 0xFF) as u8)
            } else {
                Option::<u8>::None
            },
        write_16: |s: ChipState, address: u32, value: u16|
            (false, sma_regs(sma_next(s.regs[0] as u32))),
        write_8: |s: ChipState, address: u32, value: u8| (false, s),
        saved: |s: ChipState| le32(s.regs[0] as u32),
        restored: |s: ChipState, data: Seq<u8>|
            if data.len() >= 4 {
                sma_regs(from_le32(data[0], data[1], data[2], data[3]))
            } else {
                s
            },
    }
}

impl SmaProtection {
    pub closed spec fn regs(&self) -> ChipState {
        sma_regs(self.rng)
    }

    pub fn new() -> (r: Self)
        ensures
            r.state() == sma_regs(0),
    {
        SmaProtection { rng: 0 }
    }
}

impl ProtectionChip for SmaProtection {
    open spec fn model(&self) -> ChipModel {
        sma_chip_model()
    }

    open spec fn state(&self) -> ChipState {
        self.regs()
    }

    fn after_p_rom_load(&mut self, data: &[u8]) {
    }

    fn intercept_read_8(&self, address: u32) -> (r: Option<u8>) {
        if address == 0x2FFC00 || address == 0x2FFCC0 {
            Some(((self.rng >> 8) & 0xFF) as u8)
        } else {
            None
        }
    }

    fn on_write_16(&mut self, address: u32, value: u16) -> (r: bool) {
        let new_bit: u32 = (self.rng ^ (self.rng >> 2) ^ (self.rng >> 3) ^ (self.rng >> 5)) & 1;
        self.rng = ((self.rng << 1) | new_bit) & 0x0F_FFFF;
        false
    }

    fn on_write_8(&mut self, address: u32, value: u8) -> (r: bool) {
        false
    }

    fn snapshot(&self) -> (r: Vec<u8>) {
        serialize_u32(self.rng)
    }

    fn restore(&mut self, data: &[u8]) {
        if let Some(state) = deserialize_u32(data) {
            self.rng = state;
        }
    }
}

// ── PVC ──────────────────────────────────────────────────────────────────────

/// PVC protection chip (SVC Chaos, KoF 2003, Metal Slug 5): a RAM block at `$2FE000`.
pub struct PvcProtection {
    ram: Vec<u8>,
}

/// What a PVC chip remembers.
pub open spec fn pvc_ram(ram: Seq<u8>) -> ChipState {
    ChipState { regs: Seq::empty(), ram }
}

/// The block after a word was stored at `offset`, as far as it reaches.
pub open spec fn pvc_stored(ram: Seq<u8>, offset: int, value: u16) -> Seq<u8> {
    let hi = ram.update(offset, (value >> 8) as u8);
    if offset + 1 < ram.len() {
        hi.update(offset + 1, (value & 0xFF) as u8)
    } else if offset < ram.len() {
        hi
    } else {
        ram
    }
}

/// Behaviour of [`PvcProtection`].
pub open spec fn pvc_chip_model() -> ChipModel {
    ChipModel {
        loaded: |s: ChipState, rom: Seq<u8>| s,
        intercept: |s: ChipState, address: u32|
            if 0x2FE000 <= address <= 0x2FFFFF && address - 0x2FE000 < s.ram.len() {
                Some(s.ram[address - 0x2FE000])
            } else {
                Option::<u8>::None
            },
        write_16: |s: ChipState, address: u32, value: u16|
            if 0x2FE000 <= address <= 0x2FFFFF {
                (true, pvc_ram(pvc_stored(s.ram, address - 0x2FE000, value)))
            } else {
                (false, s)
            },
        write_8: |s: ChipState, address: u32, value: u8| (false, s),
        saved: |s: ChipState| le64(s.ram.len() as u64) + s.ram,
        restored: |s: ChipState, data: Seq<u8>|
            if data.len() >= 8 && from_le64(data) <= data.len() - 8 {
                pvc_ram(data.subrange(8, 8 + from_le64(data)))
            } else {
                s
            },
    }
}

impl PvcProtection {
    pub closed spec fn block(&self) -> ChipState {
        pvc_ram(self.ram@)
    }

    pub fn new() -> (r: Self)
        ensures
            r.state() == pvc_ram(Seq::new(0x2000, |i: int| 0u8)),
    {
        let r = PvcProtection { ram: vec![0u8; 0x2000] };
        assert(r.ram@ =~= Seq::new(0x2000, |i: int| 0u8));
        r
    }
}

impl ProtectionChip for PvcProtection {
    open spec fn model(&self) -> ChipModel {
        pvc_chip_model()
    }

    open spec fn state(&self) -> ChipState {
        self.block()
    }

    fn after_p_rom_load(&mut self, data: &[u8]) {
    }

    fn intercept_read_8(&self, address: u32) -> (r: Option<u8>) {
        if 0x2FE000 <= address && address <= 0x2FFFFF {
            let offset: usize = (address - 0x2FE000) as usize;
            if offset < self.ram.len() {
                return Some(self.ram[offset]);
            }
        }
        None
    }

    fn on_write_16(&mut self, address: u32, value: u16) -> (r: bool) {
        if 0x2FE000 <= address && address <= 0x2FFFFF {
            let offset: usize = (address - 0x2FE000) as usize;
            if offset < self.ram.len() {
                self.ram.set(offset, (value >> 8) as u8);
                if offset + 1 < self.ram.len() {
                    self.ram.set(offset + 1, (value & 0xFF) as u8);
                }
            }
            return true;
        }
        false
    }

    fn on_write_8(&mut self, address: u32, value: u8) -> (r: bool) {
        false
    }

    fn snapshot(&self) -> (r: Vec<u8>) {
        serialize_byte_vec(&self.ram)
    }

    fn restore(&mut self, data: &[u8]) {
        if let Some(state) = deserialize_byte_vec(data) {
            self.ram = state;
        }
    }
}

// ── Factory ──────────────────────────────────────────────────────────────────

/// The cartridge in the slot.
pub struct CartSlot {
    pub handler: Box<dyn Cartridge>,
}

/// Behaviour of a cartridge with this chip and no decryption.
pub open spec fn plain_cart_model(chip: ChipModel) -> CartModel {
    CartModel {
        rom: |data: Seq<u8>| byteswap_corrected(data),
        reset: |s: ChipState| s,
        boot_state: None,
        chip,
    }
}

/// Games with an SMA chip.
pub open spec fn is_sma_game(name: Seq<char>) -> bool {
    name == "kof99"@ || name == "kof2000"@ || name == "kof2001"@ || name == "mslug4"@
}

/// Games with a PVC chip.
pub open spec fn is_pvc_game(name: Seq<char>) -> bool {
    name == "svc"@ || name == "kof2003"@ || name == "ms5"@ || name == "mslug5"@
}

/// Behaviour of the cartridge of a game.
pub open spec fn cart_model_for(name: Seq<char>) -> CartModel {
    if name == "kof98"@ {
        kof98_cart_model()
    } else if is_sma_game(name) {
        plain_cart_model(sma_chip_model())
    } else if is_pvc_game(name) {
        plain_cart_model(pvc_chip_model())
    } else {
        plain_cart_model(ChipModel::absent())
    }
}

/// What the cartridge of a game remembers at first.
pub open spec fn cart_state_for(name: Seq<char>) -> ChipState {
    if name == "kof98"@ {
        kof98_regs(0, 0, 0, 0)
    } else if is_sma_game(name) {
        sma_regs(0)
    } else if is_pvc_game(name) {
        pvc_ram(Seq::new(0x2000, |i: int| 0u8))
    } else {
        ChipState::none()
    }
}

/// A cartridge with neither decryption nor protection.
pub fn plain_cart() -> (r: CartSlot)
    ensures
        r.handler.model() == plain_cart_model(ChipModel::absent()),
        r.handler.state() == ChipState::none(),
{
    let c = Box::new(ComposedCart::new(None, None));
    assert(c.model().rom =~= plain_cart_model(ChipModel::absent()).rom);
    assert(c.model().reset =~= plain_cart_model(ChipModel::absent()).reset);
    CartSlot { handler: c }
}

/// The cartridge of a game; one that is not listed gets a plain cartridge.
pub fn cart_for(game_name: &str) -> (r: CartSlot)
    ensures
        r.handler.model() == cart_model_for(game_name@),
        r.handler.state() == cart_state_for(game_name@),
{
    if str_eq(game_name, "kof98") {
        CartSlot { handler: Box::new(Kof98Cart::new()) }
    } else if str_eq(game_name, "kof99") || str_eq(game_name, "kof2000") || str_eq(
        game_name,
        "kof2001",
    ) || str_eq(game_name, "mslug4") {
        let chip = Box::new(SmaProtection::new());
        let c = Box::new(ComposedCart::new(None, Some(chip)));
        assert(c.model().rom =~= plain_cart_model(sma_chip_model()).rom);
        assert(c.model().reset =~= plain_cart_model(sma_chip_model()).reset);
        CartSlot { handler: c }
    } else if str_eq(game_name, "svc") || str_eq(game_name, "kof2003") || str_eq(game_name, "ms5")
        || str_eq(game_name, "mslug5") {
        let chip = Box::new(PvcProtection::new());
        let c = Box::new(ComposedCart::new(None, Some(chip)));
        assert(c.model().rom =~= plain_cart_model(pvc_chip_model()).rom);
        assert(c.model().reset =~= plain_cart_model(pvc_chip_model()).reset);
        CartSlot { handler: c }
    } else {
        plain_cart()
    }
}

// ── Laws ─────────────────────────────────────────────────────────────────────

/// Restoring a chip's own snapshot gives back what it remembered, from any other state.
pub proof fn chip_snapshot_restores(other: ChipState, state: u8, reg: u16, w0: u16, w1: u16, rng: u32, ram: Seq<u8>)
    requires
        ram.len() <= u64::MAX,
    ensures
        ({
            let s = kof98_regs(state, reg, w0, w1);
            (kof98_chip_model().restored)(other, (kof98_chip_model().saved)(s)) == s
        }),
        (sma_chip_model().restored)(other, (sma_chip_model().saved)(sma_regs(rng))) == sma_regs(rng),
        (pvc_chip_model().restored)(other, (pvc_chip_model().saved)(pvc_ram(ram))) == pvc_ram(ram),
{
    crate::bytes::little_endian_inverse(reg, rng);
    crate::bytes::little_endian_inverse(w0, 0);
    crate::bytes::little_endian_inverse(w1, 0);
    let n = ram.len() as u64;
    crate::codec::length_prefix_inverse(n, ram);
    let data = le64(n) + ram;
    assert(data.subrange(8, 8 + n) =~= ram);
}

/// Whether a chip's memory has the form that the chip of a game gives it: four registers of
/// their widths, one 32-bit register, one block of RAM, or nothing.
pub open spec fn chip_form(name: Seq<char>, s: ChipState) -> bool {
    if name == "kof98"@ {
        &&& s.regs.len() == 4
        &&& 0 <= s.regs[0] <= u8::MAX
        &&& 0 <= s.regs[1] <= u16::MAX
        &&& 0 <= s.regs[2] <= u16::MAX
        &&& 0 <= s.regs[3] <= u16::MAX
        &&& s.ram.len() == 0
    } else if is_sma_game(name) {
        &&& s.regs.len() == 1
        &&& 0 <= s.regs[0] <= u32::MAX
        &&& s.ram.len() == 0
    } else if is_pvc_game(name) {
        &&& s.regs.len() == 0
        &&& s.ram.len() <= u64::MAX
    } else {
        &&& s.regs.len() == 0
        &&& s.ram.len() == 0
    }
}

/// The chip of a game has its form at first, and every operation keeps it: loading a P-ROM, a
/// reset, a write of either width and a restore from any bytes.
pub proof fn chip_form_is_kept(name: Seq<char>, s: ChipState, rom: Seq<u8>, a: u32, v16: u16, v8: u8, data: Seq<u8>)
    requires
        chip_form(name, s),
    ensures
        chip_form(name, cart_state_for(name)),
        chip_form(name, (cart_model_for(name).chip.loaded)(s, rom)),
        chip_form(name, (cart_model_for(name).reset)(s)),
        chip_form(name, (cart_model_for(name).chip.write_16)(s, a, v16).1),
        chip_form(name, (cart_model_for(name).chip.write_8)(s, a, v8).1),
        chip_form(name, (cart_model_for(name).chip.restored)(s, data)),
{
}

/// On the cartridge of a game, restoring a snapshot gives back what the chip remembered, from
/// whatever it remembers since.
pub proof fn game_chip_restores(name: Seq<char>, s: ChipState, other: ChipState)
    requires
        chip_form(name, s),
        chip_form(name, other),
    ensures
        ({
            let chip = cart_model_for(name).chip;
            (chip.restored)(other, (chip.saved)(s)) == s
        }),
{
    if name == "kof98"@ {
        let t = kof98_regs(s.regs[0] as u8, s.regs[1] as u16, s.regs[2] as u16, s.regs[3] as u16);
        assert(t =~= s);
        chip_snapshot_restores(
            other,
            s.regs[0] as u8,
            s.regs[1] as u16,
            s.regs[2] as u16,
            s.regs[3] as u16,
            0,
            Seq::empty(),
        );
    } else if is_sma_game(name) {
        assert(sma_regs(s.regs[0] as u32) =~= s);
        chip_snapshot_restores(other, 0, 0, 0, 0, s.regs[0] as u32, Seq::empty());
    } else if is_pvc_game(name) {
        assert(pvc_ram(s.ram) =~= s);
        chip_snapshot_restores(other, 0, 0, 0, 0, 0, s.ram);
    } else {
        assert(other =~= s);
    }
}

/// Writing the unlock value to the KoF '98 chip makes it forge "NEO-" at `$100` and at
/// the mirror; writing anything that selects no state shows the ROM again.
pub proof fn kof98_unlock_forges_signature(s: ChipState)
    ensures
        ({
            let t = (kof98_chip_model().write_16)(s, 0x20AAAA, 0x00F0).1;
            &&& kof98_intercept(t, 0x100) == Some(0x4Eu8)
            &&& kof98_intercept(t, 0x101) == Some(0x45u8)
            &&& kof98_intercept(t, 0x102) == Some(0x4Fu8)
            &&& kof98_intercept(t, 0x103) == Some(0x2Du8)
            &&& forall|k: u32| k <= 3 ==> #[trigger] kof98_intercept(t, (0x400 + k) as u32)
                == kof98_intercept(t, (0x100 + k) as u32)
            &&& forall|a: u32|
                !(0x100 <= a <= 0x103 || 0x400 <= a <= 0x403) ==> #[trigger] kof98_intercept(t, a) is None
        }),
        forall|v: u16, a: u32|
            v != 0x0090 && v != 0x00F0 ==> #[trigger] kof98_intercept(
                (kof98_chip_model().write_16)(s, 0x20AAAA, v).1,
                a,
            ) is None,
{
    halves(0x4E45, 0, 0);
    halves(0x4F2D, 0, 0);
    low_bits_are_remainders();
}

/// The random numbers are a shift register of 20 bits: all but the highest move up by one place
/// and the sum of bits 0, 2, 3 and 5, as a bit, comes in at the bottom.  Their middle byte shows at
/// the two addresses of the register and nowhere else.
pub proof fn random_numbers_are_shifted(rng: u32, address: u32, value: u16)
    ensures
        sma_next(rng) / 2 == rng % 0x8_0000,
        sma_next(rng) % 2 == (rng % 2 + (rng / 4) % 2 + (rng / 8) % 2 + (rng / 32) % 2) % 2,
        (sma_chip_model().write_16)(sma_regs(rng), address, value) == (false, sma_regs(sma_next(rng))),
        address == 0x2FFC00 || address == 0x2FFCC0 ==> (sma_chip_model().intercept)(sma_regs(rng), address) == Some(
            ((rng / 0x100) % 0x100) as u8,
        ),
        address != 0x2FFC00 && address != 0x2FFCC0 ==> (sma_chip_model().intercept)(sma_regs(rng), address) is None,
{
    let next = sma_next(rng);
    assert(next / 2 == rng % 0x8_0000 && next % 2 == (rng % 2 + (rng / 4) % 2 + (rng / 8) % 2 + (rng / 32) % 2) % 2
        && ((rng >> 8) & 0xFF) as u8 == (rng / 0x100) % 0x100) by (bit_vector)
        requires
            next == ((rng << 1) | ((rng ^ (rng >> 2) ^ (rng >> 3) ^ (rng >> 5)) & 1)) & 0x0F_FFFF,
    ;
}

/// A word written to the chip's RAM, 8 KB from `$2FE000`, reads back high byte first and changes
/// no other byte of it.
pub proof fn chip_ram_keeps_words(ram: Seq<u8>, address: u32, value: u16, other: u32)
    requires
        ram.len() == 0x2000,
        0x2FE000 <= address < 0x2FFFFF,
        other != address,
        other != address + 1,
    ensures
        ({
            let (taken, s) = (pvc_chip_model().write_16)(pvc_ram(ram), address, value);
            &&& taken
            &&& (pvc_chip_model().intercept)(s, address) == Some((value / 0x100) as u8)
            &&& (pvc_chip_model().intercept)(s, (address + 1) as u32) == Some((value % 0x100) as u8)
            &&& (pvc_chip_model().intercept)(s, other) == (pvc_chip_model().intercept)(pvc_ram(ram), other)
            &&& (pvc_chip_model().intercept)(s, other) is Some <==> 0x2FE000 <= other <= 0x2FFFFF
        }),
{
    halves(value, 0, 0);
    low_bits_are_remainders();
}

/// The decrypted program: the first 2 KB as they stand, the rest of the first megabyte by the
/// exchange of address lines, and then what follows the second megabyte, or the second megabyte
/// itself where nothing does.
pub proof fn kof98_program_is_put_in_order(rom: Seq<u8>, i: int)
    requires
        rom.len() >= 0x20_0000,
        0 <= i < kof98_decrypted(rom).len(),
    ensures
        i < 0x800 ==> kof98_decrypted(rom)[i] == rom[i],
        0x800 <= i < 0x10_0000 ==> kof98_decrypted(rom)[i] == rom[kof98_address_lines(i as u32) as int],
        i >= 0x10_0000 && rom.len() > 0x20_0000 ==> kof98_decrypted(rom)[i] == rom[i + 0x10_0000],
        i >= 0x10_0000 && rom.len() == 0x20_0000 ==> kof98_decrypted(rom)[i] == rom[i],
        kof98_decrypted(rom).len() == (if rom.len() > 0x20_0000 { rom.len() - 0x10_0000 } else { 0x20_0000 }),
{
    if 0x800 <= i < 0x10_0000 {
        kof98_decryption_is_address_exchange(i as u32);
    }
}

/// A program that was stored with its bytes exchanged is put right, and one that was not is left
/// alone: told apart by the stack pointer, which is even and at most `$200000`.
pub proof fn exchanged_program_is_put_right(rom: Seq<u8>)
    requires
        rom.len() >= 8,
        ({
            let stack = 0x100_0000 * rom[0] + 0x1_0000 * rom[1] + 0x100 * rom[2] + rom[3];
            stack <= 0x20_0000 && stack % 2 == 0
        }),
    ensures
        byteswap_corrected(rom) == rom,
        0x100_0000 * rom[1] + 0x1_0000 * rom[0] + 0x100 * rom[3] + rom[2] > 0x20_0000 ==> byteswap_corrected(
            pairs_swapped(rom),
        ) == rom,
{
    let s = pairs_swapped(rom);
    crate::bytes::swap_pairs_twice(rom);
    crate::bytes::bytes_are_digits(0, 0, rom[0], rom[1], rom[2], rom[3]);
    crate::bytes::bytes_are_digits(0, 0, rom[1], rom[0], rom[3], rom[2]);
    let p = be32(rom[0], rom[1], rom[2], rom[3]);
    assert(p & 1 == p % 2) by (bit_vector);
    assert(s[0] == rom[1] && s[1] == rom[0] && s[2] == rom[3] && s[3] == rom[2]);
}

/// The chip's other answer: with the challenge value written, `$00C2` and `$00FD` stand at `$100`
/// and at the mirror, whatever the ROM holds.
pub proof fn kof98_challenge_is_answered(s: ChipState, k: u32)
    requires
        k < 4,
    ensures
        ({
            let t = (kof98_chip_model().write_16)(s, 0x20AAAA, 0x0090).1;
            let answer = seq![0x00u8, 0xC2, 0x00, 0xFD];
            &&& kof98_intercept(t, (0x100 + k) as u32) == Some(answer[k as int])
            &&& kof98_intercept(t, (0x400 + k) as u32) == Some(answer[k as int])
        }),
        (kof98_chip_model().write_16)(s, 0x20AAAA, 0x0090).0,
        !(kof98_chip_model().write_16)(s, 0x20AAA8, 0x0090).0,
{
    halves(0x00C2, 0, 0);
    halves(0x00FD, 0, 0);
    low_bits_are_remainders();
}

/// A trap is a jump to `$B4CC`; where one stands, three instructions that do nothing take its
/// place, and nothing else of the program changes.
pub proof fn traps_are_disarmed(rom: Seq<u8>, off: int, i: int)
    requires
        0 <= off,
        off + 6 <= rom.len(),
        0 <= i < rom.len(),
    ensures
        ({
            let out = kof98_trap_disarmed(rom, off);
            let armed = rom[off] == 0x4E && rom[off + 1] == 0xF9 && rom[off + 2] == 0x00 && rom[off + 3] == 0x00
                && rom[off + 4] == 0xB4 && rom[off + 5] == 0xCC;
            &&& out.len() == rom.len()
            &&& !armed || i < off || i >= off + 6 ==> out[i] == rom[i]
            &&& armed && off <= i < off + 6 && (i - off) % 2 == 0 ==> out[i] == 0x4E
            &&& armed && off <= i < off + 6 && (i - off) % 2 == 1 ==> out[i] == 0x71
        }),
{
    let t = rom.subrange(off, off + 6);
    let c = kof98_trap_code();
    assert(t[0] == rom[off] && t[1] == rom[off + 1] && t[2] == rom[off + 2] && t[3] == rom[off + 3] && t[4] == rom[off
        + 4] && t[5] == rom[off + 5]);
    if rom[off] == 0x4E && rom[off + 1] == 0xF9 && rom[off + 2] == 0x00 && rom[off + 3] == 0x00 && rom[off + 4] == 0xB4
        && rom[off + 5] == 0xCC {
        assert(t =~= c);
    } else if t =~= c {
        assert(c[0] == t[0] && c[1] == t[1] && c[2] == t[2] && c[3] == t[3] && c[4] == t[4] && c[5] == t[5]);
    }
}

/// Setting the register keeps the words of the ROM that the chip remembers.
pub proof fn kof98_register_keeps_the_rom_words(state: u8, reg: u16, w0: u16, w1: u16, v: u16)
    ensures
        ({
            let t = (kof98_chip_model().write_16)(kof98_regs(state, reg, w0, w1), 0x20AAAA, v).1;
            &&& t.regs[1] == v
            &&& t.regs[2] == w0
            &&& t.regs[3] == w1
            &&& t.regs[0] == (if v == 0x0090 { 1int } else if v == 0x00F0 { 2 } else { 0 })
        }),
{
}

/// A program too short for a trap at a place has none there.
pub proof fn short_programs_have_no_traps(rom: Seq<u8>, off: int)
    requires
        0 <= off,
        rom.len() < off + 6,
    ensures
        kof98_trap_disarmed(rom, off) == rom,
{
}

} // verus!
