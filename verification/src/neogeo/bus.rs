//! NeoGeo system bus: memory map and I/O routing for the MC68000.
//!
//! | Range                | Description                              |
//! |----------------------|------------------------------------------|
//! | `$000000-$0FFFFF`    | P-ROM (or BIOS mirror at boot)           |
//! | `$100000-$10FFFF`    | 64 KB Work RAM                           |
//! | `$200000-$2FFFFF`    | Banked P-ROM window                      |
//! | `$2FFFF0-$2FFFFF`    | P-ROM bank select register               |
//! | `$300000-$3BFFFF`    | Memory-mapped I/O                        |
//! | `$3C0000-$3C000F`    | LSPC-2 video registers                   |
//! | `$400000-$401FFF`    | Palette RAM (8 KB active bank)           |
//! | `$800000-$800FFF`    | Memory card (2 KB, odd bytes)            |
//! | `$C00000-$C7FFFF`    | BIOS ROM                                 |
//! | `$D00000-$D0FFFF`    | Battery-backed backup SRAM               |

use crate::bits::low_bits_are_remainders;
use crate::bytes::{copied, pairs_swapped, same_bytes, swap_pairs};
use crate::io::InputState;
use crate::neogeo::cart::{
    byteswap_corrected, byteswap_p_rom_if_needed, cart_model_for, chip_form, plain_cart, plain_cart_model,
    CartModel, CartSlot, Cartridge, ChipModel, ChipState,
};
use crate::neogeo::lspc::{Lspc, LspcView};
use crate::neogeo::rtc::Upd4990a;
use crate::save_state::{BusSnapshot, BusSnapshotView};
use vstd::prelude::*;

verus! {

// ── Hardware register addresses ──────────────────────────────────────────────

pub const REG_P1CNT: u32 = 0x300000;
pub const REG_DIPSW: u32 = 0x300001;
pub const REG_SOUND: u32 = 0x320000;
pub const REG_STATUS_A: u32 = 0x320001;
pub const REG_P2CNT: u32 = 0x340000;
pub const REG_STATUS_B: u32 = 0x380000;
pub const REG_RTCCTRL: u32 = 0x380051;
pub const REG_NOSHADOW: u32 = 0x3A0001;
pub const REG_SHADOW: u32 = 0x3A0011;
pub const REG_BRDFIX: u32 = 0x3A000B;
pub const REG_CRTFIX: u32 = 0x3A001B;
pub const REG_PALBANK1: u32 = 0x3A000F;
pub const REG_PALBANK0: u32 = 0x3A001F;
pub const REG_SWPBIOS: u32 = 0x3A0003;
pub const REG_SWPROM: u32 = 0x3A0013;
pub const REG_SRAMLOCK: u32 = 0x3A000D;
pub const REG_SRAMEN: u32 = 0x3A001D;
pub const REG_VRAMADDR: u32 = 0x3C0000;
pub const REG_VRAMRW: u32 = 0x3C0002;
pub const REG_VRAMMOD: u32 = 0x3C0004;
pub const REG_LSPCMODE: u32 = 0x3C0006;
pub const REG_TIMERHIGH: u32 = 0x3C0008;
pub const REG_TIMERLOW: u32 = 0x3C000A;
pub const REG_IRQACK: u32 = 0x3C000C;
pub const REG_TIMERSTOP: u32 = 0x3C000E;

// ── Address ranges ───────────────────────────────────────────────────────────

pub const PROM_END: u32 = 0x0FFFFF;
/// Banked P-ROM window.
pub const PROM2_START: u32 = 0x200000;
pub const PROM2_END: u32 = 0x2FFFFF;
/// P-ROM bank select register.
pub const REG_BANKSEL_START: u32 = 0x2FFFF0;
pub const REG_BANKSEL_END: u32 = 0x2FFFFF;
pub const WRAM_START: u32 = 0x100000;
pub const WRAM_END: u32 = 0x10FFFF;
pub const IO_START: u32 = 0x300000;
pub const IO_END: u32 = 0x3FFFFF;
pub const PAL_START: u32 = 0x400000;
pub const PAL_END: u32 = 0x401FFF;
pub const MEMCARD_START: u32 = 0x800000;
pub const MEMCARD_END: u32 = 0x800FFF;
pub const BIOS_START: u32 = 0xC00000;
pub const BIOS_END: u32 = 0xC7FFFF;
pub const SRAM_START: u32 = 0xD00000;
pub const SRAM_END: u32 = 0xD0FFFF;

/// Work RAM offset of `BIOS_MVS_FLAG` (`$10FD82`).
pub const BIOS_MVS_FLAG_OFF: usize = 0xFD82;

/// `REG_DIPSW` while presenting AES: freeplay on (bit 6 low), other switches off.
pub const AES_TRAINING_HW_DIPS: u8 = 0xBF;

/// Bytes of work RAM and of backup SRAM.
pub const RAM_SIZE: usize = 0x10000;

/// Bytes of the memory card.
pub const MEMCARD_SIZE: usize = 0x800;

// ── Components ───────────────────────────────────────────────────────────────

/// Work RAM (`$100000-$10FFFF`).
pub struct WramRegion {
    pub data: Vec<u8>,
}

/// Battery-backed SRAM with write-protect (`$D00000-$D0FFFF`).
pub struct SramRegion {
    pub data: Vec<u8>,
    /// Switched by `REG_SRAMLOCK` / `REG_SRAMEN`.
    pub writable: bool,
}

/// Memory card (2 KB, odd bytes only).
pub struct MemcardRegion {
    pub data: Vec<u8>,
}

/// The P-ROM windows; owns the base of the banked one.
pub struct PromRegion {
    /// Offset into the P-ROM that `$200000` maps to.
    pub bank_base: usize,
}

/// BIOS window (`$C00000-$C7FFFF`) with the vector overlay.
pub struct BiosRegion;

/// Memory-mapped registers (`$300000-$3FFFFF`).
pub struct IoRegion;

/// All ROM images of a session; they do not change during emulation and are not part of
/// save states.
pub struct RomImages {
    /// Cartridge program code.
    pub p_rom: Vec<u8>,
    /// System BIOS.
    pub bios_rom: Vec<u8>,
    /// System fix-layer tiles.
    pub sfix_rom: Vec<u8>,
    /// System Z80 program.
    pub sm1_rom: Vec<u8>,
    /// Cartridge Z80 program.
    pub m1_rom: Vec<u8>,
    /// Cartridge fix-layer tiles.
    pub s_rom: Vec<u8>,
    /// Cartridge sprite tiles (C1+C2 interleaved per byte).
    pub c_rom: Vec<u8>,
    /// V-zoom lookup table: `lo_rom[vshrink * 256 + dest_y]` holds the source tile in its
    /// high nibble and the row in its low nibble.
    pub lo_rom: Vec<u8>,
}

/// The bus fields that the renderer reads.
pub struct VideoSnapshot<'a> {
    pub vram: &'a [u8],
    pub pal_ram: &'a [u8],
    pub sfix_rom: &'a [u8],
    pub s_rom: &'a [u8],
    pub c_rom: &'a [u8],
    pub pal_bank: bool,
    pub brd_fix: bool,
    pub auto_anim_frame: u8,
    pub lo_rom: &'a [u8],
    pub shadow: bool,
}

/// Which M1 ROM is (or is to become) active for the Z80.
#[derive(Clone, Copy, Debug, PartialEq, Eq, Structural)]
pub enum ActiveM1Rom {
    NoRom,
    Sm1,
    Cart,
}

/// Mode bits that affect address decoding.
#[derive(Clone, Copy, Debug, PartialEq, Eq, Structural)]
pub struct AddressMode {
    pub swp_rom: bool,
}

/// NeoGeo system backplane.
pub struct SystemBus {
    pub roms: RomImages,
    pub lspc: Lspc,
    pub rtc: Upd4990a,
    pub wram: WramRegion,
    pub sram: SramRegion,
    pub mem_card: MemcardRegion,
    pub prom: PromRegion,
    pub bios: BiosRegion,
    /// Active-low hardware DIP switches; bit 0 low opens the operator menu at boot.
    pub hw_dips: u8,
    /// Cartridge P-ROM maps to `$000000` (else the BIOS does).
    pub swp_rom: bool,
    /// Byte written by the 68K to `REG_SOUND`.
    pub sound_cmd: u8,
    /// Byte written by the Z80 for the 68K.
    pub sound_reply: u8,
    /// Bit 0: the Z80 has taken the last command.
    pub sound_status: u8,
    /// The 68K wrote `REG_SOUND` and the Z80 has not been told yet.
    pub nmi_request: bool,
    /// M1-ROM swap queued by `REG_BRDFIX` / `REG_CRTFIX`.
    pub pending_m1_rom: Option<Vec<u8>>,
    /// The same as the base that `prom` owns.
    pub p_rom_bank_base: usize,
    /// Game-specific ROM post-processing and protection.
    pub cart: CartSlot,
    /// Forces `REG_STATUS_B` bit 7: `Some(true)` = AES (low), `Some(false)` = MVS (high).
    pub presentation_aes: Option<bool>,
    pub input: InputState,
    /// Last 16-bit access.
    pub open_bus: u16,
}

// ── Model ────────────────────────────────────────────────────────────────────

/// What the ROM images hold.
#[verifier::ext_equal]
pub struct RomsView {
    pub p_rom: Seq<u8>,
    pub bios_rom: Seq<u8>,
    pub sfix_rom: Seq<u8>,
    pub sm1_rom: Seq<u8>,
    pub m1_rom: Seq<u8>,
    pub s_rom: Seq<u8>,
    pub c_rom: Seq<u8>,
    pub lo_rom: Seq<u8>,
}

impl View for RomImages {
    type V = RomsView;

    open spec fn view(&self) -> RomsView {
        RomsView {
            p_rom: self.p_rom@,
            bios_rom: self.bios_rom@,
            sfix_rom: self.sfix_rom@,
            sm1_rom: self.sm1_rom@,
            m1_rom: self.m1_rom@,
            s_rom: self.s_rom@,
            c_rom: self.c_rom@,
            lo_rom: self.lo_rom@,
        }
    }
}

/// What a [`SystemBus`] holds.
#[verifier::ext_equal]
pub struct BusView {
    pub roms: RomsView,
    pub lspc: LspcView,
    pub rtc: Upd4990a,
    pub wram: Seq<u8>,
    pub sram: Seq<u8>,
    pub sram_writable: bool,
    pub mem_card: Seq<u8>,
    pub bank_base: usize,
    pub hw_dips: u8,
    pub swp_rom: bool,
    pub sound_cmd: u8,
    pub sound_reply: u8,
    pub sound_status: u8,
    pub nmi_request: bool,
    pub pending_m1_rom: Option<Seq<u8>>,
    pub p_rom_bank_base: usize,
    pub cart: CartModel,
    pub chip: ChipState,
    pub presentation_aes: Option<bool>,
    pub input: InputState,
    pub open_bus: u16,
}

/// The contents of an optional byte vector.
pub open spec fn opt_bytes(v: Option<Vec<u8>>) -> Option<Seq<u8>> {
    match v {
        Some(x) => Some(x@),
        None => None,
    }
}

impl View for SystemBus {
    type V = BusView;

    open spec fn view(&self) -> BusView {
        BusView {
            roms: self.roms@,
            lspc: self.lspc@,
            rtc: self.rtc,
            wram: self.wram.data@,
            sram: self.sram.data@,
            sram_writable: self.sram.writable,
            mem_card: self.mem_card.data@,
            bank_base: self.prom.bank_base,
            hw_dips: self.hw_dips,
            swp_rom: self.swp_rom,
            sound_cmd: self.sound_cmd,
            sound_reply: self.sound_reply,
            sound_status: self.sound_status,
            nmi_request: self.nmi_request,
            pending_m1_rom: opt_bytes(self.pending_m1_rom),
            p_rom_bank_base: self.p_rom_bank_base,
            cart: self.cart.handler.model(),
            chip: self.cart.handler.state(),
            presentation_aes: self.presentation_aes,
            input: self.input,
            open_bus: self.open_bus,
        }
    }
}

/// A byte of a ROM that repeats over its address range; `0xFF` where there is no ROM.
pub open spec fn mirrored(rom: Seq<u8>, off: int) -> u8 {
    if rom.len() == 0 { 0xFF } else { rom[off % (rom.len() as int)] }
}

/// Where the bank select register puts the base of the banked window.
pub open spec fn bank_base_for(rom_len: nat, value: u16) -> usize {
    let bank_addr = 0x100000usize + (((value & 7) as usize) << 20);
    if bank_addr >= rom_len { 0x100000 } else { bank_addr as usize }
}

/// A BIOS image with a byteswap undone where there was one: it starts with the bytes of
/// its stack pointer the wrong way round.
pub open spec fn bios_corrected(data: Seq<u8>) -> Seq<u8> {
    if data.len() >= 4 && (data[0] == 0x10 || data[0] == 0x11) && data[1] == 0x00 {
        pairs_swapped(data)
    } else {
        data
    }
}

/// The code under which a save state records an M1 ROM.
pub open spec fn m1_code(rom: ActiveM1Rom) -> u8 {
    match rom {
        ActiveM1Rom::NoRom => 0,
        ActiveM1Rom::Sm1 => 1,
        ActiveM1Rom::Cart => 2,
    }
}

impl BusView {
    /// The memories have their hardware sizes, the clock can be counted up and the bank
    /// base fits its 32-bit snapshot field.
    pub open spec fn wf(self) -> bool {
        &&& self.lspc.wf()
        &&& self.rtc.wf()
        &&& self.wram.len() == RAM_SIZE
        &&& self.sram.len() == RAM_SIZE
        &&& self.bank_base <= u32::MAX
        &&& self.p_rom_bank_base == self.bank_base
    }

    /// The fixed P-ROM window (`$000000-$0FFFFF`).  The vectors below `$80` are the
    /// cartridge's only after `REG_SWPROM`; above, the cartridge shows wherever there is
    /// one.
    pub open spec fn prom_byte(self, address: u32) -> u8 {
        let off = address as int;
        if self.roms.p_rom.len() == 0 || (off < 0x80 && !self.swp_rom) {
            mirrored(self.roms.bios_rom, off)
        } else {
            match (self.cart.chip.intercept)(self.chip, address) {
                Some(byte) => byte,
                None => if off < 0x80 && off >= self.roms.p_rom.len() {
                    0xFF
                } else {
                    mirrored(self.roms.p_rom, off)
                },
            }
        }
    }

    /// The banked P-ROM window (`$200000-$2FFFFF`).
    pub open spec fn banked_byte(self, address: u32) -> u8 {
        mirrored(self.roms.p_rom, self.bank_base + (address - PROM2_START))
    }

    /// The BIOS window; before `REG_SWPROM` its first `$80` bytes show the cartridge's
    /// vectors.
    pub open spec fn bios_byte(self, address: u32) -> u8 {
        let off = address - BIOS_START;
        if self.roms.bios_rom.len() > 0 && !self.swp_rom && off < 0x80 && self.roms.p_rom.len() > 0 {
            match (self.cart.chip.intercept)(self.chip, address) {
                Some(byte) => byte,
                None => mirrored(self.roms.p_rom, off),
            }
        } else {
            mirrored(self.roms.bios_rom, off)
        }
    }

    /// `REG_DIPSW` as the 68K sees it.
    pub open spec fn dips(self) -> u8 {
        if self.presentation_aes == Some(true) { AES_TRAINING_HW_DIPS } else { self.hw_dips }
    }

    /// A memory-mapped register.
    pub open spec fn io_byte(self, address: u32) -> u8 {
        if address == REG_P1CNT {
            self.input.p1
        } else if address == REG_DIPSW {
            self.dips()
        } else if address == REG_SOUND {
            if self.sound_status & 1 != 0 { self.sound_reply } else { self.sound_reply & 0x7F }
        } else if address == REG_STATUS_A {
            (self.input.coin & 0x3F) | (self.rtc.outputs() << 6)
        } else if address == REG_P2CNT {
            self.input.p2
        } else if address == REG_STATUS_B {
            self.input.sys
        } else {
            0xFF
        }
    }

    /// Offset of the active palette bank's byte at an address of the palette window.
    pub open spec fn pal_offset(self, address: u32) -> int {
        (if self.lspc.pal_bank { 0x2000int } else { 0int }) + (address - PAL_START)
    }

    /// A memory-card byte: data at odd addresses (`0xFF` beyond the card), open bus at even
    /// ones.
    pub open spec fn memcard_byte(self, address: u32) -> u8 {
        let idx = (address - MEMCARD_START) / 2;
        if address % 2 == 0 {
            (self.open_bus >> 8) as u8
        } else if idx < self.mem_card.len() {
            self.mem_card[idx]
        } else {
            0xFF
        }
    }

    /// The byte that a 24-bit address reads as.
    pub open spec fn byte_at(self, a: u32) -> u8 {
        if a <= PROM_END {
            self.prom_byte(a)
        } else if PROM2_START <= a <= PROM2_END {
            self.banked_byte(a)
        } else if WRAM_START <= a <= WRAM_END {
            self.wram[a - WRAM_START]
        } else if IO_START <= a <= IO_END {
            self.io_byte(a)
        } else if PAL_START <= a <= PAL_END {
            self.lspc.pal_ram[self.pal_offset(a)]
        } else if MEMCARD_START <= a <= MEMCARD_END {
            self.memcard_byte(a)
        } else if BIOS_START <= a <= BIOS_END {
            self.bios_byte(a)
        } else if SRAM_START <= a <= SRAM_END {
            self.sram[a - SRAM_START]
        } else if a % 2 == 0 {
            (self.open_bus >> 8) as u8
        } else {
            (self.open_bus & 0xFF) as u8
        }
    }

    /// An 8-bit read.
    pub open spec fn read8(self, address: u32) -> u8 {
        self.byte_at(address & 0x00FF_FFFF)
    }

    /// A 16-bit read: the VRAM port and the mode register as words, else two bytes.
    pub open spec fn read16(self, address: u32) -> u16 {
        let a = address & 0x00FF_FFFF;
        if a == REG_VRAMRW {
            self.lspc.vram_word()
        } else if a == REG_LSPCMODE {
            self.lspc.mode_word()
        } else {
            ((self.read8(a) as u16) << 8) | (self.read8((a + 1) as u32) as u16)
        }
    }

    /// The bus after a 16-bit read: the word stays on the open bus.
    pub open spec fn after_read16(self, address: u32) -> BusView {
        BusView { open_bus: self.read16(address), ..self }
    }

    /// A 32-bit read: two words.
    pub open spec fn read32(self, address: u32) -> u32 {
        ((self.read16(address) as u32) << 16) | (self.after_read16(address).read16(
            (address + 2) as u32,
        ) as u32)
    }

    /// `BIOS_MVS_FLAG` cleared while an AES presentation runs the cartridge.
    pub open spec fn aes_synced(self) -> BusView {
        if self.presentation_aes == Some(true) && self.swp_rom && self.wram.len() > BIOS_MVS_FLAG_OFF {
            BusView { wram: self.wram.update(BIOS_MVS_FLAG_OFF as int, 0), ..self }
        } else {
            self
        }
    }

    /// After a write to a memory-mapped register.
    pub open spec fn io_written(self, address: u32, value: u8) -> BusView {
        if address == REG_SOUND {
            BusView {
                sound_cmd: value,
                sound_status: self.sound_status & 0xFE,
                nmi_request: true,
                ..self
            }
        } else if address == REG_NOSHADOW {
            BusView { lspc: LspcView { shadow: false, ..self.lspc }, ..self }
        } else if address == REG_SHADOW {
            BusView { lspc: LspcView { shadow: true, ..self.lspc }, ..self }
        } else if address == REG_SWPBIOS {
            BusView { swp_rom: false, ..self }
        } else if address == REG_SWPROM {
            (BusView { swp_rom: true, ..self }).aes_synced()
        } else if address == REG_BRDFIX {
            BusView {
                lspc: LspcView { brd_fix: true, ..self.lspc },
                pending_m1_rom: if self.roms.sm1_rom.len() > 0 {
                    Some(self.roms.sm1_rom)
                } else {
                    self.pending_m1_rom
                },
                ..self
            }
        } else if address == REG_CRTFIX {
            BusView {
                lspc: LspcView { brd_fix: false, ..self.lspc },
                pending_m1_rom: if self.roms.m1_rom.len() > 0 {
                    Some(self.roms.m1_rom)
                } else {
                    self.pending_m1_rom
                },
                ..self
            }
        } else if address == REG_PALBANK0 {
            BusView { lspc: LspcView { pal_bank: false, ..self.lspc }, ..self }
        } else if address == REG_PALBANK1 {
            BusView { lspc: LspcView { pal_bank: true, ..self.lspc }, ..self }
        } else if address == REG_SRAMLOCK {
            BusView { sram_writable: false, ..self }
        } else if address == REG_SRAMEN {
            BusView { sram_writable: true, ..self }
        } else if address == REG_RTCCTRL {
            BusView {
                rtc: self.rtc.pins_written(value & 0x02 != 0, value & 0x04 != 0, value & 0x01 != 0),
                ..self
            }
        } else {
            self
        }
    }

    /// After a write to the bank select register.
    pub open spec fn bank_selected(self, value: u16) -> BusView {
        let base = if self.roms.p_rom.len() > 0 {
            bank_base_for(self.roms.p_rom.len(), value)
        } else {
            self.bank_base
        };
        BusView { bank_base: base, p_rom_bank_base: base, ..self }
    }

    /// After a byte was offered to the cartridge.
    pub open spec fn cart_written8(self, address: u32, value: u8) -> BusView {
        BusView { chip: (self.cart.chip.write_8)(self.chip, address, value).1, ..self }
    }

    /// After an 8-bit write.
    pub open spec fn write8(self, address: u32, value: u8) -> BusView {
        let a = address & 0x00FF_FFFF;
        let idx = (a - MEMCARD_START) / 2;
        if WRAM_START <= a <= WRAM_END {
            BusView { wram: self.wram.update(a - WRAM_START, value), ..self }
        } else if SRAM_START <= a <= SRAM_END {
            if self.sram_writable {
                BusView { sram: self.sram.update(a - SRAM_START, value), ..self }
            } else {
                self
            }
        } else if MEMCARD_START <= a <= MEMCARD_END {
            if a % 2 == 1 && idx < self.mem_card.len() {
                BusView { mem_card: self.mem_card.update(idx, value), ..self }
            } else {
                self
            }
        } else if IO_START <= a <= IO_END {
            self.io_written(a, value)
        } else if PAL_START <= a <= PAL_END {
            BusView { lspc: self.lspc.with_pal_byte(self.pal_offset(a), value), ..self }
        } else if REG_BANKSEL_START <= a <= REG_BANKSEL_END {
            BusView { open_bus: value as u16, ..self.bank_selected(value as u16) }
        } else {
            self.cart_written8(a, value)
        }
    }

    /// The video controller after a word was written to one of its registers.
    pub open spec fn lspc_written(self, a: u32, value: u16) -> LspcView {
        if a == REG_VRAMADDR {
            LspcView { vram_addr: value, ..self.lspc }
        } else if a == REG_VRAMRW {
            LspcView {
                vram_addr: self.lspc.vram_addr.wrapping_add(self.lspc.vram_mod),
                ..self.lspc.with_vram_word(value)
            }
        } else if a == REG_VRAMMOD {
            LspcView { vram_mod: value, ..self.lspc }
        } else if a == REG_LSPCMODE {
            LspcView {
                auto_anim_speed: (value >> 8) as u8,
                irq_control: (value & 0xFF) as u8,
                ..self.lspc
            }
        } else if a == REG_TIMERHIGH {
            LspcView {
                timer_reload: (self.lspc.timer_reload & 0x0000_FFFF) | ((value as u32) << 16),
                ..self.lspc
            }
        } else if a == REG_TIMERLOW {
            let reload = (self.lspc.timer_reload & 0xFFFF_0000) | (value as u32);
            LspcView {
                timer_reload: reload,
                timer_counter: reload,
                timer_active: true,
                ..self.lspc
            }
        } else if a == REG_IRQACK {
            LspcView { pending_irq: self.lspc.pending_irq & !((value as u8) & 0x07), ..self.lspc }
        } else {
            LspcView { timer_stop_in_border: value & 1 != 0, ..self.lspc }
        }
    }

    /// After a 16-bit write: a video register, the bank register, the cartridge, or two
    /// bytes; the word stays on the open bus.
    pub open spec fn write16(self, address: u32, value: u16) -> BusView {
        let a = address & 0x00FF_FFFF;
        let after = if REG_VRAMADDR <= a <= REG_TIMERSTOP && a % 2 == 0 {
            BusView { lspc: self.lspc_written(a, value), ..self }
        } else if REG_BANKSEL_START <= a <= REG_BANKSEL_END {
            self.bank_selected(value)
        } else {
            let (taken, chip) = (self.cart.chip.write_16)(self.chip, a, value);
            let offered = BusView { chip, ..self };
            if taken {
                offered
            } else {
                offered.write8(a, (value >> 8) as u8).write8((a + 1) as u32, (value & 0xFF) as u8)
            }
        };
        BusView { open_bus: value, ..after }
    }

    /// After a 32-bit write: two words.
    pub open spec fn write32(self, address: u32, value: u32) -> BusView {
        self.write16(address, (value >> 16) as u16).write16(
            (address + 2) as u32,
            (value & 0xFFFF) as u16,
        )
    }

    /// A system input byte with the presentation's bit 7.
    pub open spec fn presented_sys(self, sys: u8) -> u8 {
        if self.presentation_aes == Some(true) {
            sys & 0x7F
        } else if self.presentation_aes == Some(false) {
            sys | 0x80
        } else {
            sys
        }
    }

    /// After one frame of input was latched.
    pub open spec fn input_applied(self, state: InputState) -> BusView {
        (BusView {
            input: InputState { sys: self.presented_sys(state.sys), ..state },
            ..self
        }).aes_synced()
    }

    /// Which M1 ROM is queued.
    pub open spec fn pending_m1(self) -> ActiveM1Rom {
        match self.pending_m1_rom {
            None => ActiveM1Rom::NoRom,
            Some(rom) => if rom == self.roms.sm1_rom {
                ActiveM1Rom::Sm1
            } else if rom == self.roms.m1_rom {
                ActiveM1Rom::Cart
            } else {
                ActiveM1Rom::NoRom
            },
        }
    }

    /// The snapshot of this state.
    pub open spec fn captured(self) -> BusSnapshotView {
        BusSnapshotView {
            work_ram: self.wram,
            backup_ram: self.sram,
            mem_card: self.mem_card,
            lspc: self.lspc,
            rtc: self.rtc,
            swp_rom: self.swp_rom,
            sound_cmd: self.sound_cmd,
            sound_reply: self.sound_reply,
            sound_status: self.sound_status,
            nmi_request: self.nmi_request,
            p_rom_bank_base: self.bank_base as u32,
            pending_m1_swap: m1_code(self.pending_m1()),
            sram_writable: self.sram_writable,
            open_bus: self.open_bus,
            hw_dips: self.hw_dips,
            cart_state: (self.cart.chip.saved)(self.chip),
            input: self.input,
        }
    }

    /// The ROM that a snapshot's code queues for the sound CPU: one of the loaded ones; none
    /// where the named one is not loaded.
    pub open spec fn queued_rom(self, code: u8) -> Option<Seq<u8>> {
        if code == m1_code(ActiveM1Rom::Sm1) && self.roms.sm1_rom.len() > 0 {
            Some(self.roms.sm1_rom)
        } else if code == m1_code(ActiveM1Rom::Cart) && self.roms.m1_rom.len() > 0 {
            Some(self.roms.m1_rom)
        } else {
            None
        }
    }

    /// Whether a queued M1 ROM, if there is one, is one of the loaded ROMs.
    pub open spec fn queues_loaded_rom(self) -> bool {
        self.pending_m1_rom matches Some(rom) ==> rom.len() > 0 && (rom == self.roms.sm1_rom || rom
            == self.roms.m1_rom)
    }

    /// Whether this is the board of a game: its cartridge, a chip whose memory has that
    /// cartridge's form, and no swap queued but to a loaded ROM.
    pub open spec fn runs_game(self, name: Seq<char>) -> bool {
        &&& self.cart == cart_model_for(name)
        &&& chip_form(name, self.chip)
        &&& self.queues_loaded_rom()
    }

    /// This bus restored from a snapshot: ROMs, cartridge and presentation stay, a queued
    /// M1 swap is rebuilt from the loaded ROMs.
    pub open spec fn restored(self, snap: BusSnapshotView) -> BusView {
        BusView {
            wram: snap.work_ram,
            sram: snap.backup_ram,
            mem_card: snap.mem_card,
            lspc: snap.lspc,
            rtc: snap.rtc,
            swp_rom: snap.swp_rom,
            sound_cmd: snap.sound_cmd,
            sound_reply: snap.sound_reply,
            sound_status: snap.sound_status,
            nmi_request: snap.nmi_request,
            bank_base: snap.p_rom_bank_base as usize,
            p_rom_bank_base: snap.p_rom_bank_base as usize,
            sram_writable: snap.sram_writable,
            open_bus: snap.open_bus,
            hw_dips: snap.hw_dips,
            chip: (self.cart.chip.restored)(self.chip, snap.cart_state),
            pending_m1_rom: self.queued_rom(snap.pending_m1_swap),
            input: snap.input,
            ..self
        }
    }

    /// After a system reset: video, latches, bank and open bus as at power-on; RAM, clock,
    /// DIP switches, presentation and input stay.
    pub open spec fn after_reset(self) -> BusView {
        BusView {
            lspc: LspcView::power_on(),
            swp_rom: false,
            sound_cmd: 0,
            sound_reply: 0,
            sound_status: 1,
            nmi_request: false,
            pending_m1_rom: None,
            bank_base: 0x100000,
            p_rom_bank_base: 0x100000,
            chip: (self.cart.reset)(self.chip),
            open_bus: 0,
            ..self
        }
    }

    /// A new bus: no ROMs, a plain cartridge, cleared work RAM, blank backup SRAM.
    pub open spec fn power_on() -> BusView {
        BusView {
            roms: RomsView {
                p_rom: Seq::empty(),
                bios_rom: Seq::empty(),
                sfix_rom: Seq::empty(),
                sm1_rom: Seq::empty(),
                m1_rom: Seq::empty(),
                s_rom: Seq::empty(),
                c_rom: Seq::empty(),
                lo_rom: Seq::empty(),
            },
            lspc: LspcView::power_on(),
            rtc: Upd4990a::power_on(),
            wram: Seq::new(RAM_SIZE as nat, |i: int| 0u8),
            sram: Seq::new(RAM_SIZE as nat, |i: int| 0xFFu8),
            sram_writable: false,
            mem_card: Seq::new(MEMCARD_SIZE as nat, |i: int| 0u8),
            bank_base: 0x100000,
            hw_dips: 0xFF,
            swp_rom: false,
            sound_cmd: 0,
            sound_reply: 0,
            sound_status: 1,
            nmi_request: false,
            pending_m1_rom: None,
            p_rom_bank_base: 0x100000,
            cart: plain_cart_model(ChipModel::absent()),
            chip: ChipState::none(),
            presentation_aes: None,
            input: InputState::idle(),
            open_bus: 0,
        }
    }
}

// ── Regions ──────────────────────────────────────────────────────────────────

impl WramRegion {
    pub fn new() -> (r: Self)
        ensures
            r.data@ == Seq::new(RAM_SIZE as nat, |i: int| 0u8),
    {
        let data: Vec<u8> = vec![0u8; RAM_SIZE];
        assert(data@ =~= Seq::new(RAM_SIZE as nat, |i: int| 0u8));
        WramRegion { data }
    }
}

impl SramRegion {
    pub fn new() -> (r: Self)
        ensures
            r.data@ == Seq::new(RAM_SIZE as nat, |i: int| 0xFFu8),
            !r.writable,
    {
        let data: Vec<u8> = vec![0xFFu8; RAM_SIZE];
        assert(data@ =~= Seq::new(RAM_SIZE as nat, |i: int| 0xFFu8));
        SramRegion { data, writable: false }
    }

    fn write8(&mut self, offset: usize, val: u8)
        requires
            offset < old(self).data@.len(),
        ensures
            final(self).writable == old(self).writable,
            final(self).data@ == (if old(self).writable {
                old(self).data@.update(offset as int, val)
            } else {
                old(self).data@
            }),
    {
        if self.writable {
            self.data.set(offset, val);
        }
    }
}

impl MemcardRegion {
    pub fn new() -> (r: Self)
        ensures
            r.data@ == Seq::new(MEMCARD_SIZE as nat, |i: int| 0u8),
    {
        let data: Vec<u8> = vec![0u8; MEMCARD_SIZE];
        assert(data@ =~= Seq::new(MEMCARD_SIZE as nat, |i: int| 0u8));
        MemcardRegion { data }
    }

    fn read_odd(&self, word_idx: usize) -> (r: u8)
        ensures
            r == (if word_idx < self.data@.len() { self.data@[word_idx as int] } else { 0xFF }),
    {
        if word_idx < self.data.len() { self.data[word_idx] } else { 0xFF }
    }

    fn write_odd(&mut self, word_idx: usize, val: u8)
        ensures
            final(self).data@ == (if word_idx < old(self).data@.len() {
                old(self).data@.update(word_idx as int, val)
            } else {
                old(self).data@
            }),
    {
        if word_idx < self.data.len() {
            self.data.set(word_idx, val);
        }
    }
}

fn mirrored_byte(rom: &Vec<u8>, off: u64) -> (r: u8)
    ensures
        r == mirrored(rom@, off as int),
{
    if rom.len() == 0 {
        0xFF
    } else {
        let at: u64 = off % (rom.len() as u64);
        rom[at as usize]
    }
}

impl PromRegion {
    pub fn new() -> (r: Self)
        ensures
            r.bank_base == 0x100000,
    {
        PromRegion { bank_base: 0x100000 }
    }

    fn read8(&self, address: u32, bus: &SystemBus, mode: AddressMode) -> (r: u8)
        requires
            mode.swp_rom == bus.swp_rom,
        ensures
            r == bus@.prom_byte(address),
    {
        if bus.roms.p_rom.len() == 0 || (address < 0x80 && !mode.swp_rom) {
            return mirrored_byte(&bus.roms.bios_rom, address as u64);
        }
        match bus.cart.handler.intercept_read_8(address) {
            Some(byte) => byte,
            None => {
                if address < 0x80 && address as usize >= bus.roms.p_rom.len() {
                    0xFF
                } else {
                    mirrored_byte(&bus.roms.p_rom, address as u64)
                }
            },
        }
    }

    fn read_banked(&self, address: u32, bus: &SystemBus) -> (r: u8)
        requires
            self.bank_base == bus@.bank_base,
            bus@.bank_base <= u32::MAX,
            PROM2_START <= address,
        ensures
            r == bus@.banked_byte(address),
    {
        mirrored_byte(&bus.roms.p_rom, self.bank_base as u64 + (address - PROM2_START) as u64)
    }

    fn handle_bank_select(&mut self, rom_len: usize, value: u16)
        ensures
            final(self).bank_base == (if rom_len > 0 {
                bank_base_for(rom_len as nat, value)
            } else {
                old(self).bank_base
            }),
            final(self).bank_base <= 0x800000 || final(self).bank_base == old(self).bank_base,
    {
        let bank: usize = (value & 7) as usize;
        assert(value & 7 <= 7) by {
            low_bits_are_remainders();
        }
        assert(bank << 20 <= 0x700000) by (bit_vector)
            requires
                bank <= 7,
        ;
        let bank_addr: usize = 0x100000usize + (bank << 20);
        if rom_len > 0 {
            self.bank_base = if bank_addr >= rom_len { 0x100000 } else { bank_addr };
        }
    }

    pub fn bank_base(&self) -> (r: usize)
        ensures
            r == self.bank_base,
    {
        self.bank_base
    }

    pub fn set_bank_base(&mut self, base: usize)
        ensures
            final(self).bank_base == base,
    {
        self.bank_base = base;
    }
}

impl BiosRegion {
    fn read8(&self, address: u32, bus: &SystemBus, mode: AddressMode) -> (r: u8)
        requires
            mode.swp_rom == bus.swp_rom,
            BIOS_START <= address,
        ensures
            r == bus@.bios_byte(address),
    {
        let off: u32 = address - BIOS_START;
        if bus.roms.bios_rom.len() > 0 && !mode.swp_rom && off < 0x80 && bus.roms.p_rom.len() > 0 {
            return match bus.cart.handler.intercept_read_8(address) {
                Some(byte) => byte,
                None => mirrored_byte(&bus.roms.p_rom, off as u64),
            };
        }
        mirrored_byte(&bus.roms.bios_rom, off as u64)
    }
}

impl IoRegion {
    fn read8(address: u32, bus: &SystemBus) -> (r: u8)
        ensures
            r == bus@.io_byte(address),
    {
        if address == REG_P1CNT {
            bus.input.p1
        } else if address == REG_DIPSW {
            bus.effective_hw_dips()
        } else if address == REG_SOUND {
            if bus.sound_status & 1 != 0 { bus.sound_reply } else { bus.sound_reply & 0x7F }
        } else if address == REG_STATUS_A {
            (bus.input.coin & 0x3F) | (bus.rtc.read() << 6)
        } else if address == REG_P2CNT {
            bus.input.p2
        } else if address == REG_STATUS_B {
            bus.input.sys
        } else {
            0xFF
        }
    }

    fn write8(address: u32, value: u8, bus: &mut SystemBus)
        requires
            old(bus)@.wf(),
        ensures
            final(bus)@ == old(bus)@.io_written(address, value),
            final(bus)@.wf(),
    {
        if address == REG_SOUND {
            bus.sound_cmd = value;
            bus.sound_status = bus.sound_status & 0xFE;
            bus.nmi_request = true;
        } else if address == REG_NOSHADOW {
            bus.lspc.shadow = false;
        } else if address == REG_SHADOW {
            bus.lspc.shadow = true;
        } else if address == REG_SWPBIOS {
            bus.swp_rom = false;
        } else if address == REG_SWPROM {
            bus.swp_rom = true;
            bus.sync_aes_bios_ram();
        } else if address == REG_BRDFIX {
            bus.lspc.brd_fix = true;
            if bus.roms.sm1_rom.len() > 0 {
                bus.pending_m1_rom = Some(copied(bus.roms.sm1_rom.as_slice()));
            }
        } else if address == REG_CRTFIX {
            bus.lspc.brd_fix = false;
            if bus.roms.m1_rom.len() > 0 {
                bus.pending_m1_rom = Some(copied(bus.roms.m1_rom.as_slice()));
            }
        } else if address == REG_PALBANK0 {
            bus.lspc.pal_bank = false;
        } else if address == REG_PALBANK1 {
            bus.lspc.pal_bank = true;
        } else if address == REG_SRAMLOCK {
            bus.sram.writable = false;
        } else if address == REG_SRAMEN {
            bus.sram.writable = true;
        } else if address == REG_RTCCTRL {
            bus.rtc.write((value & 0x02) != 0, (value & 0x04) != 0, (value & 0x01) != 0);
        }
    }
}

impl RomImages {
    pub fn new() -> (r: Self)
        ensures
            r@ == BusView::power_on().roms,
    {
        RomImages {
            p_rom: Vec::new(),
            bios_rom: Vec::new(),
            sfix_rom: Vec::new(),
            sm1_rom: Vec::new(),
            m1_rom: Vec::new(),
            s_rom: Vec::new(),
            c_rom: Vec::new(),
            lo_rom: Vec::new(),
        }
    }
}

impl Default for RomImages {
    fn default() -> (r: Self)
        ensures
            r@ == BusView::power_on().roms,
    {
        Self::new()
    }
}

impl ActiveM1Rom {
    /// The code under which save states record this ROM.
    pub fn code(self) -> (r: u8)
        ensures
            r == m1_code(self),
    {
        match self {
            ActiveM1Rom::NoRom => 0,
            ActiveM1Rom::Sm1 => 1,
            ActiveM1Rom::Cart => 2,
        }
    }
}

impl Default for ActiveM1Rom {
    fn default() -> (r: Self)
        ensures
            r == ActiveM1Rom::NoRom,
    {
        ActiveM1Rom::NoRom
    }
}

// ── SystemBus ────────────────────────────────────────────────────────────────

impl SystemBus {
    pub fn mode(&self) -> (r: AddressMode)
        ensures
            r.swp_rom == self.swp_rom,
    {
        AddressMode { swp_rom: self.swp_rom }
    }

    /// Construct a fully reset bus with no ROMs loaded.
    pub fn new() -> (r: Self)
        ensures
            r@ == BusView::power_on(),
            r@.wf(),
    {
        let r = SystemBus {
            roms: RomImages::new(),
            lspc: Lspc::new(),
            rtc: Upd4990a::new(),
            wram: WramRegion::new(),
            sram: SramRegion::new(),
            mem_card: MemcardRegion::new(),
            prom: PromRegion::new(),
            bios: BiosRegion,
            hw_dips: 0xFF,
            swp_rom: false,
            sound_cmd: 0,
            sound_reply: 0,
            sound_status: 1,
            nmi_request: false,
            pending_m1_rom: None,
            p_rom_bank_base: 0x100000,
            cart: plain_cart(),
            presentation_aes: None,
            input: InputState::default(),
            open_bus: 0,
        };
        assert(r@ =~= BusView::power_on());
        r
    }

    /// Reset internal bus state (called on system reset).
    pub fn reset(&mut self)
        ensures
            final(self)@ == old(self)@.after_reset(),
            old(self)@.wf() ==> final(self)@.wf(),
    {
        self.lspc = Lspc::new();
        self.swp_rom = false;
        self.sound_cmd = 0;
        self.sound_reply = 0;
        self.sound_status = 1;
        self.nmi_request = false;
        self.pending_m1_rom = None;
        self.prom = PromRegion::new();
        self.p_rom_bank_base = 0x100000;
        self.cart.handler.reset();
        self.open_bus = 0;
    }

    // ── ROM loading ──────────────────────────────────────────────────────────

    /// Load the system BIOS, correcting a byteswapped image.
    pub fn load_bios_bytes(&mut self, data: &[u8]) -> (r: Result<(), String>)
        ensures
            r is Ok,
            final(self)@ == (BusView {
                roms: RomsView { bios_rom: bios_corrected(data@), ..old(self)@.roms },
                ..old(self)@
            }),
    {
        let mut bios = copied(data);
        if bios.len() >= 4 && (bios[0] == 0x10 || bios[0] == 0x11) && bios[1] == 0x00 {
            swap_pairs(&mut bios);
        }
        self.roms.bios_rom = bios;
        Ok(())
    }

    /// Load the cartridge Z80 program.
    pub fn load_m1_bytes(&mut self, data: Vec<u8>)
        ensures
            final(self)@ == (BusView {
                roms: RomsView { m1_rom: data@, ..old(self)@.roms },
                ..old(self)@
            }),
    {
        self.roms.m1_rom = data;
    }

    /// Load the system fix-layer tiles.
    pub fn load_sfix_bytes(&mut self, data: &[u8])
        ensures
            final(self)@ == (BusView {
                roms: RomsView { sfix_rom: data@, ..old(self)@.roms },
                ..old(self)@
            }),
    {
        self.roms.sfix_rom = copied(data);
    }

    /// Load the system Z80 program.
    pub fn load_sm1_bytes(&mut self, data: &[u8])
        ensures
            final(self)@ == (BusView {
                roms: RomsView { sm1_rom: data@, ..old(self)@.roms },
                ..old(self)@
            }),
    {
        self.roms.sm1_rom = copied(data);
    }

    /// Load the V-zoom lookup table.
    pub fn load_lo_rom_bytes(&mut self, data: &[u8])
        ensures
            final(self)@ == (BusView {
                roms: RomsView { lo_rom: data@, ..old(self)@.roms },
                ..old(self)@
            }),
    {
        self.roms.lo_rom = copied(data);
    }

    /// Load the cartridge fix-layer tiles.
    pub fn load_s_rom_bytes(&mut self, data: Vec<u8>)
        ensures
            final(self)@ == (BusView {
                roms: RomsView { s_rom: data@, ..old(self)@.roms },
                ..old(self)@
            }),
    {
        self.roms.s_rom = data;
    }

    /// Load a bare program ROM: a byteswap is corrected, and the cartridge handler has no part
    /// in it.
    pub fn load_p_rom(&mut self, data: Vec<u8>)
        ensures
            final(self)@ == (BusView {
                roms: RomsView { p_rom: byteswap_corrected(data@), ..old(self)@.roms },
                ..old(self)@
            }),
    {
        let mut data = data;
        byteswap_p_rom_if_needed(&mut data);
        self.roms.p_rom = data;
    }

    /// Load the cartridge program; the cartridge handler post-processes it.
    pub fn load_p_rom_bytes(&mut self, data: Vec<u8>)
        ensures
            ({
                let rom = (old(self)@.cart.rom)(data@);
                final(self)@ == (BusView {
                    roms: RomsView { p_rom: rom, ..old(self)@.roms },
                    chip: (old(self)@.cart.chip.loaded)(old(self)@.chip, rom),
                    ..old(self)@
                })
            }),
    {
        self.roms.p_rom = self.cart.handler.process_p_rom(data);
    }

    /// Load a combined, already interleaved C-ROM.
    pub fn load_c_rom_bytes(&mut self, data: Vec<u8>)
        ensures
            final(self)@ == (BusView {
                roms: RomsView { c_rom: data@, ..old(self)@.roms },
                ..old(self)@
            }),
    {
        self.roms.c_rom = data;
    }

    // ── Address decoder ──────────────────────────────────────────────────────

    /// 8-bit read.
    pub fn read_8(&self, address: u32) -> (r: u8)
        requires
            self@.wf(),
        ensures
            r == self@.read8(address),
    {
        self.read_8_impl(address)
    }

    fn read_8_impl(&self, address: u32) -> (r: u8)
        requires
            self@.wf(),
        ensures
            r == self@.read8(address),
    {
        let address: u32 = address & 0x00FF_FFFF;
        if address <= PROM_END {
            self.prom.read8(address, self, self.mode())
        } else if PROM2_START <= address && address <= PROM2_END {
            self.prom.read_banked(address, self)
        } else if WRAM_START <= address && address <= WRAM_END {
            self.wram.data[(address - WRAM_START) as usize]
        } else if IO_START <= address && address <= IO_END {
            IoRegion::read8(address, self)
        } else if PAL_START <= address && address <= PAL_END {
            let bank_off: usize = if self.lspc.pal_bank { 0x2000 } else { 0 };
            self.lspc.pal_ram[bank_off + (address - PAL_START) as usize]
        } else if MEMCARD_START <= address && address <= MEMCARD_END {
            if address % 2 == 1 {
                self.mem_card.read_odd(((address - MEMCARD_START) / 2) as usize)
            } else {
                (self.open_bus >> 8) as u8
            }
        } else if BIOS_START <= address && address <= BIOS_END {
            self.bios.read8(address, self, self.mode())
        } else if SRAM_START <= address && address <= SRAM_END {
            self.sram.data[(address - SRAM_START) as usize]
        } else if address % 2 == 0 {
            (self.open_bus >> 8) as u8
        } else {
            (self.open_bus & 0xFF) as u8
        }
    }

    /// 16-bit big-endian read.
    pub fn read_16(&mut self, address: u32) -> (r: u16)
        requires
            old(self)@.wf(),
        ensures
            r == old(self)@.read16(address),
            final(self)@ == old(self)@.after_read16(address),
            final(self)@.wf(),
    {
        proof {
            mask24_bound(address);
        }
        let address: u32 = address & 0x00FF_FFFF;
        let value: u16 = if address == REG_VRAMRW {
            self.lspc.vram_read_word()
        } else if address == REG_LSPCMODE {
            self.lspc.lspc_mode_read()
        } else {
            let hi: u16 = self.read_8(address) as u16;
            let lo: u16 = self.read_8(address + 1) as u16;
            (hi << 8) | lo
        };
        self.open_bus = value;
        value
    }

    /// 32-bit big-endian read (two consecutive 16-bit reads).
    pub fn read_32(&mut self, address: u32) -> (r: u32)
        requires
            old(self)@.wf(),
            address <= u32::MAX - 2,
        ensures
            r == old(self)@.read32(address),
            final(self)@ == old(self)@.after_read16(address).after_read16((address + 2) as u32),
            final(self)@.wf(),
    {
        let hi: u32 = self.read_16(address) as u32;
        let lo: u32 = self.read_16(address + 2) as u32;
        (hi << 16) | lo
    }

    /// 8-bit write.
    pub fn write_8(&mut self, address: u32, value: u8)
        requires
            old(self)@.wf(),
        ensures
            final(self)@ == old(self)@.write8(address, value),
            final(self)@.wf(),
    {
        self.write_8_impl(address, value);
    }

    fn write_8_impl(&mut self, address: u32, value: u8)
        requires
            old(self)@.wf(),
        ensures
            final(self)@ == old(self)@.write8(address, value),
            final(self)@.wf(),
    {
        let address: u32 = address & 0x00FF_FFFF;
        if WRAM_START <= address && address <= WRAM_END {
            self.wram.data.set((address - WRAM_START) as usize, value);
        } else if SRAM_START <= address && address <= SRAM_END {
            self.sram.write8((address - SRAM_START) as usize, value);
        } else if MEMCARD_START <= address && address <= MEMCARD_END {
            if address % 2 == 1 {
                self.mem_card.write_odd(((address - MEMCARD_START) / 2) as usize, value);
            }
        } else if IO_START <= address && address <= IO_END {
            IoRegion::write8(address, value, self);
        } else if PAL_START <= address && address <= PAL_END {
            let bank_off: usize = if self.lspc.pal_bank { 0x2000 } else { 0 };
            self.lspc.pal_write(bank_off + (address - PAL_START) as usize, value);
        } else if REG_BANKSEL_START <= address && address <= REG_BANKSEL_END {
            self.select_bank(value as u16);
            self.open_bus = value as u16;
        } else {
            let _ = self.cart.handler.on_write_8(address, value);
        }
    }

    fn select_bank(&mut self, value: u16)
        requires
            old(self)@.wf(),
        ensures
            final(self)@ == old(self)@.bank_selected(value),
            final(self)@.wf(),
    {
        self.prom.handle_bank_select(self.roms.p_rom.len(), value);
        self.p_rom_bank_base = self.prom.bank_base();
    }

    /// 16-bit big-endian write.
    pub fn write_16(&mut self, address: u32, value: u16)
        requires
            old(self)@.wf(),
        ensures
            final(self)@ == old(self)@.write16(address, value),
            final(self)@.wf(),
    {
        self.write_16_impl(address, value);
    }

    fn write_16_impl(&mut self, address: u32, value: u16)
        requires
            old(self)@.wf(),
        ensures
            final(self)@ == old(self)@.write16(address, value),
            final(self)@.wf(),
    {
        proof {
            mask24_bound(address);
        }
        let address: u32 = address & 0x00FF_FFFF;
        if REG_VRAMADDR <= address && address <= REG_TIMERSTOP && address % 2 == 0 {
            self.write_video_register(address, value);
        } else if REG_BANKSEL_START <= address && address <= REG_BANKSEL_END {
            self.select_bank(value);
        } else {
            let taken = self.cart.handler.on_write_16(address, value);
            if !taken {
                self.write_8(address, (value >> 8) as u8);
                self.write_8(address + 1, (value & 0xFF) as u8);
            }
        }
        self.open_bus = value;
    }

    fn write_video_register(&mut self, address: u32, value: u16)
        requires
            old(self)@.wf(),
            REG_VRAMADDR <= address <= REG_TIMERSTOP,
            address % 2 == 0,
        ensures
            final(self)@ == (BusView {
                lspc: old(self)@.lspc_written(address, value),
                ..old(self)@
            }),
            final(self)@.wf(),
    {
        if address == REG_VRAMADDR {
            self.lspc.vram_addr = value;
        } else if address == REG_VRAMRW {
            self.lspc.vram_write_word(value);
            self.lspc.vram_addr = self.lspc.vram_addr.wrapping_add(self.lspc.vram_mod);
        } else if address == REG_VRAMMOD {
            self.lspc.vram_mod = value;
        } else if address == REG_LSPCMODE {
            self.lspc.auto_anim_speed = (value >> 8) as u8;
            self.lspc.irq_control = (value & 0xFF) as u8;
        } else if address == REG_TIMERHIGH {
            self.lspc.timer_reload = (self.lspc.timer_reload & 0x0000_FFFF) | ((value as u32) << 16);
        } else if address == REG_TIMERLOW {
            self.lspc.timer_reload = (self.lspc.timer_reload & 0xFFFF_0000) | (value as u32);
            self.lspc.timer_counter = self.lspc.timer_reload;
            self.lspc.timer_active = true;
        } else if address == REG_IRQACK {
            self.lspc.irq_ack(value as u8);
        } else {
            self.lspc.timer_stop_in_border = (value & 1) != 0;
        }
    }

    /// 32-bit big-endian write (two consecutive 16-bit writes).
    pub fn write_32(&mut self, address: u32, value: u32)
        requires
            old(self)@.wf(),
            address <= u32::MAX - 2,
        ensures
            final(self)@ == old(self)@.write32(address, value),
            final(self)@.wf(),
    {
        self.write_16(address, (value >> 16) as u16);
        self.write_16(address + 2, (value & 0xFFFF) as u16);
    }

    // ── Input ────────────────────────────────────────────────────────────────

    /// Latch the AES/MVS presentation for the session (survives `reset`).
    pub fn set_presentation_aes(&mut self, aes: bool)
        ensures
            final(self)@ == (BusView {
                presentation_aes: Some(aes),
                input: InputState {
                    sys: if aes { old(self)@.input.sys & 0x7F } else { old(self)@.input.sys | 0x80 },
                    ..old(self)@.input
                },
                ..old(self)@
            }),
    {
        self.presentation_aes = Some(aes);
        if aes {
            self.input.sys = self.input.sys & 0x7F;
        } else {
            self.input.sys = self.input.sys | 0x80;
        }
    }

    /// `REG_DIPSW` byte presented to the 68K.
    pub fn effective_hw_dips(&self) -> (r: u8)
        ensures
            r == self@.dips(),
    {
        match self.presentation_aes {
            Some(true) => AES_TRAINING_HW_DIPS,
            _ => self.hw_dips,
        }
    }

    fn merge_presentation_sys(&self, sys: u8) -> (r: u8)
        ensures
            r == self@.presented_sys(sys),
    {
        match self.presentation_aes {
            Some(true) => sys & 0x7F,
            Some(false) => sys | 0x80,
            None => sys,
        }
    }

    /// Clear `BIOS_MVS_FLAG` while presenting AES, once the BIOS has handed control to the
    /// cartridge (before, the BIOS tests that byte as RAM).
    fn sync_aes_bios_ram(&mut self)
        ensures
            final(self)@ == old(self)@.aes_synced(),
            old(self)@.wf() ==> final(self)@.wf(),
    {
        let aes = match self.presentation_aes {
            Some(a) => a,
            None => false,
        };
        if aes && self.swp_rom && self.wram.data.len() > BIOS_MVS_FLAG_OFF {
            self.wram.data.set(BIOS_MVS_FLAG_OFF, 0);
        }
    }

    /// Apply one frame of player input.
    pub fn apply_input(&mut self, state: InputState)
        ensures
            final(self)@ == old(self)@.input_applied(state),
            old(self)@.wf() ==> final(self)@.wf(),
    {
        let mut state = state;
        state.sys = self.merge_presentation_sys(state.sys);
        self.input = state;
        self.sync_aes_bios_ram();
    }

    /// Borrow the 64 KB work RAM.
    pub fn work_ram(&self) -> (r: &[u8])
        ensures
            r@ == self@.wram,
    {
        self.wram.data.as_slice()
    }

    /// Mutable borrow of the 64 KB work RAM.
    pub fn work_ram_mut(&mut self) -> (r: &mut [u8])
        ensures
            r@ == old(self)@.wram,
            final(self)@ == (BusView { wram: final(r)@, ..old(self)@ }),
    {
        self.wram.data.as_mut_slice()
    }

    /// Borrow the 64 KB backup SRAM.
    pub fn backup_ram(&self) -> (r: &[u8])
        ensures
            r@ == self@.sram,
    {
        self.sram.data.as_slice()
    }

    /// Mutable borrow of the 64 KB backup SRAM.
    pub fn backup_ram_mut(&mut self) -> (r: &mut [u8])
        ensures
            r@ == old(self)@.sram,
            final(self)@ == (BusView { sram: final(r)@, ..old(self)@ }),
    {
        self.sram.data.as_mut_slice()
    }

    // ── Video controller facade ──────────────────────────────────────────────

    /// Raise one or more interrupt sources (`0x04` for V-blank).
    pub fn raise_irq(&mut self, mask: u8)
        ensures
            final(self)@ == (BusView {
                lspc: LspcView {
                    pending_irq: old(self)@.lspc.pending_irq | mask,
                    ..old(self)@.lspc
                },
                ..old(self)@
            }),
    {
        self.lspc.raise_irq(mask);
    }

    /// The 68K interrupt level the bus wants to assert (0 = none).
    pub fn irq_level(&self) -> (r: u32)
        ensures
            r == self@.lspc.level(),
    {
        self.lspc.irq_level()
    }

    /// Advance the beam counter and the raster timer.
    pub fn tick_timer(&mut self, m68k_cycles: u32)
        requires
            old(self).lspc.timer_active ==> old(self).lspc.timer_subcycle + m68k_cycles <= u32::MAX,
        ensures
            final(self)@ == (BusView {
                lspc: old(self)@.lspc.after_cycles(m68k_cycles),
                ..old(self)@
            }),
            old(self)@.wf() ==> final(self)@.wf(),
    {
        self.lspc.tick(m68k_cycles);
    }

    /// The fields that the renderer reads.
    pub fn video_snapshot(&self) -> (r: VideoSnapshot<'_>)
        ensures
            r.vram@ == self@.lspc.vram,
            r.pal_ram@ == self@.lspc.pal_ram,
            r.sfix_rom@ == self@.roms.sfix_rom,
            r.s_rom@ == self@.roms.s_rom,
            r.c_rom@ == self@.roms.c_rom,
            r.pal_bank == self@.lspc.pal_bank,
            r.brd_fix == self@.lspc.brd_fix,
            r.auto_anim_frame == self@.lspc.auto_anim_frame,
            r.lo_rom@ == self@.roms.lo_rom,
            r.shadow == self@.lspc.shadow,
    {
        VideoSnapshot {
            vram: self.lspc.vram.as_slice(),
            pal_ram: self.lspc.pal_ram.as_slice(),
            sfix_rom: self.roms.sfix_rom.as_slice(),
            s_rom: self.roms.s_rom.as_slice(),
            c_rom: self.roms.c_rom.as_slice(),
            pal_bank: self.lspc.pal_bank,
            brd_fix: self.lspc.brd_fix,
            auto_anim_frame: self.lspc.auto_anim_frame,
            lo_rom: self.roms.lo_rom.as_slice(),
            shadow: self.lspc.shadow,
        }
    }

    // ── Save state ───────────────────────────────────────────────────────────

    /// Which M1 ROM (if any) is queued.
    pub fn pending_m1_swap_code(&self) -> (r: ActiveM1Rom)
        ensures
            r == self@.pending_m1(),
    {
        match &self.pending_m1_rom {
            None => ActiveM1Rom::NoRom,
            Some(rom) => {
                if same_bytes(rom.as_slice(), self.roms.sm1_rom.as_slice()) {
                    ActiveM1Rom::Sm1
                } else if same_bytes(rom.as_slice(), self.roms.m1_rom.as_slice()) {
                    ActiveM1Rom::Cart
                } else {
                    ActiveM1Rom::NoRom
                }
            },
        }
    }

    /// Capture all mutable bus state.
    pub fn snapshot(&self) -> (r: BusSnapshot)
        ensures
            r@ == self@.captured(),
    {
        BusSnapshot {
            work_ram: copied(self.wram.data.as_slice()),
            backup_ram: copied(self.sram.data.as_slice()),
            mem_card: copied(self.mem_card.data.as_slice()),
            lspc: self.lspc.clone(),
            rtc: self.rtc,
            swp_rom: self.swp_rom,
            sound_cmd: self.sound_cmd,
            sound_reply: self.sound_reply,
            sound_status: self.sound_status,
            nmi_request: self.nmi_request,
            p_rom_bank_base: self.prom.bank_base() as u32,
            pending_m1_swap: self.pending_m1_swap_code().code(),
            sram_writable: self.sram.writable,
            open_bus: self.open_bus,
            hw_dips: self.hw_dips,
            cart_state: self.cart.handler.snapshot(),
            input: self.input,
        }
    }

    /// Restore all mutable bus state; a queued M1 swap takes its ROM from the loaded ones, and is
    /// none where that ROM is not loaded.
    pub fn restore(&mut self, snap: BusSnapshot)
        ensures
            final(self)@ == old(self)@.restored(snap@),
            snap@.wf() ==> final(self)@.wf(),
    {
        self.wram.data = snap.work_ram;
        self.sram.data = snap.backup_ram;
        self.mem_card.data = snap.mem_card;
        self.lspc = snap.lspc;
        self.rtc = snap.rtc;
        self.swp_rom = snap.swp_rom;
        self.sound_cmd = snap.sound_cmd;
        self.sound_reply = snap.sound_reply;
        self.sound_status = snap.sound_status;
        self.nmi_request = snap.nmi_request;
        self.p_rom_bank_base = snap.p_rom_bank_base as usize;
        self.prom.set_bank_base(snap.p_rom_bank_base as usize);
        self.sram.writable = snap.sram_writable;
        self.open_bus = snap.open_bus;
        self.hw_dips = snap.hw_dips;
        self.cart.handler.restore(snap.cart_state.as_slice());
        self.pending_m1_rom = if snap.pending_m1_swap == ActiveM1Rom::Sm1.code() && self.roms.sm1_rom.len() > 0 {
            Some(copied(self.roms.sm1_rom.as_slice()))
        } else if snap.pending_m1_swap == ActiveM1Rom::Cart.code() && self.roms.m1_rom.len() > 0 {
            Some(copied(self.roms.m1_rom.as_slice()))
        } else {
            None
        };
        self.input = snap.input;
    }
}

/// A masked address has 24 bits.
proof fn mask24_bound(address: u32)
    ensures
        address & 0x00FF_FFFF <= 0x00FF_FFFF,
        (address & 0x00FF_FFFF) & 0x00FF_FFFF == address & 0x00FF_FFFF,
{
    low_bits_are_remainders();
}

} // verus!
