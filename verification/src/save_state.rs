//! Save states: complete snapshots of the mutable emulator state at a frame boundary.
//!
//! ROM images are not part of them.

use crate::io::InputState;
use crate::neogeo::lspc::{Lspc, LspcView};
use crate::neogeo::rtc::Upd4990a;
use vstd::prelude::*;

verus! {

/// Snapshot of all mutable bus state.
pub struct BusSnapshot {
    /// 64 KB work RAM.
    pub work_ram: Vec<u8>,
    /// 64 KB battery-backed backup SRAM.
    pub backup_ram: Vec<u8>,
    /// 2 KB memory card.
    pub mem_card: Vec<u8>,
    pub lspc: Lspc,
    pub rtc: Upd4990a,
    /// Cartridge P-ROM mapped to `$000000`.
    pub swp_rom: bool,
    pub sound_cmd: u8,
    pub sound_reply: u8,
    pub sound_status: u8,
    pub nmi_request: bool,
    /// P-ROM bank base; 32 bits on every platform.
    pub p_rom_bank_base: u32,
    /// Pending M1-ROM swap: 0 none, 1 system, 2 cartridge.
    pub pending_m1_swap: u8,
    pub sram_writable: bool,
    pub open_bus: u16,
    pub hw_dips: u8,
    /// Cartridge protection chip state.
    pub cart_state: Vec<u8>,
    /// Latched player input for the upcoming frame.
    pub input: InputState,
}

/// What a [`BusSnapshot`] holds.
#[verifier::ext_equal]
pub struct BusSnapshotView {
    pub work_ram: Seq<u8>,
    pub backup_ram: Seq<u8>,
    pub mem_card: Seq<u8>,
    pub lspc: LspcView,
    pub rtc: Upd4990a,
    pub swp_rom: bool,
    pub sound_cmd: u8,
    pub sound_reply: u8,
    pub sound_status: u8,
    pub nmi_request: bool,
    pub p_rom_bank_base: u32,
    pub pending_m1_swap: u8,
    pub sram_writable: bool,
    pub open_bus: u16,
    pub hw_dips: u8,
    pub cart_state: Seq<u8>,
    pub input: InputState,
}

impl View for BusSnapshot {
    type V = BusSnapshotView;

    open spec fn view(&self) -> BusSnapshotView {
        BusSnapshotView {
            work_ram: self.work_ram@,
            backup_ram: self.backup_ram@,
            mem_card: self.mem_card@,
            lspc: self.lspc@,
            rtc: self.rtc,
            swp_rom: self.swp_rom,
            sound_cmd: self.sound_cmd,
            sound_reply: self.sound_reply,
            sound_status: self.sound_status,
            nmi_request: self.nmi_request,
            p_rom_bank_base: self.p_rom_bank_base,
            pending_m1_swap: self.pending_m1_swap,
            sram_writable: self.sram_writable,
            open_bus: self.open_bus,
            hw_dips: self.hw_dips,
            cart_state: self.cart_state@,
            input: self.input,
        }
    }
}

impl BusSnapshotView {
    /// The memories have their sizes and the clock its bounds, as in every snapshot that
    /// a bus takes.
    pub open spec fn wf(self) -> bool {
        &&& self.work_ram.len() == 0x10000
        &&& self.backup_ram.len() == 0x10000
        &&& self.lspc.wf()
        &&& self.rtc.wf()
    }
}

impl BusSnapshot {
    /// Whether the snapshot is one that a bus can have taken.
    pub fn is_valid(&self) -> (r: bool)
        ensures
            r == self@.wf(),
    {
        self.work_ram.len() == 0x10000 && self.backup_ram.len() == 0x10000 && self.lspc.is_valid()
            && self.rtc.is_valid()
    }
}

/// Register file of the 68000.
#[derive(Clone, Copy)]
pub struct M68kSnapshot {
    /// Data registers D0-D7 and address registers A0-A7.
    pub dar: [u32; 16],
    pub dar_save: [u32; 16],
    pub sr_save: u16,
    pub ppc: u32,
    pub pc: u32,
    /// Stack pointers.
    pub sp: [u32; 8],
    pub vbr: u32,
    pub sfc: u32,
    pub dfc: u32,
    pub cacr: u32,
    pub caar: u32,
    pub ir: u32,
    pub t1_flag: u32,
    pub t0_flag: u32,
    pub s_flag: u32,
    pub m_flag: u32,
    pub x_flag: u32,
    pub n_flag: u32,
    pub not_z_flag: u32,
    pub v_flag: u32,
    pub c_flag: u32,
    pub int_mask: u32,
    pub int_level: u32,
    pub stopped: u32,
    pub cycles_remaining: i32,
    pub initial_cycles: i32,
    pub change_of_flow: bool,
    pub pref_addr: u32,
    pub pref_data: u32,
    pub instr_mode: u32,
    pub run_mode: u32,
    pub exception_processing: bool,
    pub virq_state: u32,
    pub nmi_pending: u32,
}

/// State of the Z80 sound CPU and its board.
pub struct Z80Snapshot {
    /// The CPU's own serialised registers.
    pub cpu_bytes: Vec<u8>,
    /// Internal RAM (2 KB).
    pub wram: Vec<u8>,
    pub bank_f000: u32,
    pub bank_e000: u32,
    pub bank_c000: u32,
    pub bank_8000: u32,
    pub nmi_enabled: bool,
    pub nmi_requested: bool,
    pub nmi_fire: bool,
    pub int_line: i32,
    pub subcycle: u32,
    pub cycle_target: u64,
    /// Which M1 ROM is mapped: 0 none, 1 system, 2 cartridge.
    pub active_m1_rom: u8,
}

/// What a [`Z80Snapshot`] holds.
#[verifier::ext_equal]
pub struct Z80SnapshotView {
    pub cpu_bytes: Seq<u8>,
    pub wram: Seq<u8>,
    pub bank_f000: u32,
    pub bank_e000: u32,
    pub bank_c000: u32,
    pub bank_8000: u32,
    pub nmi_enabled: bool,
    pub nmi_requested: bool,
    pub nmi_fire: bool,
    pub int_line: i32,
    pub subcycle: u32,
    pub cycle_target: u64,
    pub active_m1_rom: u8,
}

impl View for Z80Snapshot {
    type V = Z80SnapshotView;

    open spec fn view(&self) -> Z80SnapshotView {
        Z80SnapshotView {
            cpu_bytes: self.cpu_bytes@,
            wram: self.wram@,
            bank_f000: self.bank_f000,
            bank_e000: self.bank_e000,
            bank_c000: self.bank_c000,
            bank_8000: self.bank_8000,
            nmi_enabled: self.nmi_enabled,
            nmi_requested: self.nmi_requested,
            nmi_fire: self.nmi_fire,
            int_line: self.int_line,
            subcycle: self.subcycle,
            cycle_target: self.cycle_target,
            active_m1_rom: self.active_m1_rom,
        }
    }
}

/// Complete NeoGeo save state.
pub struct SaveState {
    /// Format version.
    pub version: String,
    /// Frame counter at the time of the snapshot.
    pub frame: u64,
    pub m68k: M68kSnapshot,
    pub z80: Z80Snapshot,
    pub bus: BusSnapshot,
    /// Register state of the sound chip.
    pub ym2610: Vec<u8>,
}

/// Format version of the NeoGeo save states.
pub open spec fn save_state_version() -> Seq<char> {
    "neo-3.5"@
}

/// 32-bit FNV-1a hash.
pub open spec fn fnv1a_32(data: Seq<u8>) -> u32
    decreases data.len(),
{
    if data.len() == 0 {
        2166136261
    } else {
        (fnv1a_32(data.drop_last()) ^ (data.last() as u32)).wrapping_mul(16777619)
    }
}

/// 16-bit FNV-1a hash: the halves of the 32-bit one folded together.
pub open spec fn fnv1a_folded(data: Seq<u8>) -> u16 {
    let hash = fnv1a_32(data);
    ((hash >> 16) ^ (hash & 0xFFFF)) as u16
}

/// Compute the 16-bit FNV-1a hash of some bytes.
pub fn fnv1a_16(data: &[u8]) -> (r: u16)
    ensures
        r == fnv1a_folded(data@),
{
    let mut hash: u32 = 2166136261;
    let mut i: usize = 0;
    assert(data@.take(0) =~= Seq::<u8>::empty());
    while i < data.len()
        invariant
            i <= data@.len(),
            hash == fnv1a_32(data@.take(i as int)),
        decreases data@.len() - i,
    {
        assert(data@.take(i + 1).drop_last() =~= data@.take(i as int));
        hash = (hash ^ data[i] as u32).wrapping_mul(16777619);
        i = i + 1;
    }
    assert(data@.take(i as int) =~= data@);
    ((hash >> 16) ^ (hash & 0xFFFF)) as u16
}

impl SaveState {
    /// Current save-state format version.
    pub fn current_version() -> (r: String)
        ensures
            r@ == save_state_version(),
    {
        String::from_str("neo-3.5")
    }

    /// Whether this state has the current format version.
    pub fn version_matches(&self) -> (r: bool)
        ensures
            r == (self.version@ == save_state_version()),
    {
        crate::text::str_eq(self.version.as_str(), "neo-3.5")
    }

    /// One 16-bit checksum per subsystem, so that a desync can be traced to the first one
    /// that differs: 68000, Z80, sound chip, video controller, work RAM, backup RAM with
    /// the memory card, the rest of the bus, and the frame number.  The serialised forms of
    /// the structured subsystems are handed in.
    pub fn debug_checksums(
        &self,
        m68k_bytes: &[u8],
        z80_bytes: &[u8],
        lspc_bytes: &[u8],
        misc_bytes: &[u8],
    ) -> (r: [u16; 8])
        ensures
            r@ == seq![
                fnv1a_folded(m68k_bytes@),
                fnv1a_folded(z80_bytes@),
                fnv1a_folded(self.ym2610@),
                fnv1a_folded(lspc_bytes@),
                fnv1a_folded(self.bus.work_ram@),
                fnv1a_folded(self.bus.backup_ram@ + self.bus.mem_card@),
                fnv1a_folded(misc_bytes@),
                fnv1a_folded(crate::codec::le64(self.frame)),
            ],
    {
        let mut backup = crate::bytes::copied(self.bus.backup_ram.as_slice());
        backup.extend_from_slice(self.bus.mem_card.as_slice());
        assert(backup@ =~= self.bus.backup_ram@ + self.bus.mem_card@);
        let frame = crate::codec::le64_bytes(self.frame);
        let r = [
            fnv1a_16(m68k_bytes),
            fnv1a_16(z80_bytes),
            fnv1a_16(self.ym2610.as_slice()),
            fnv1a_16(lspc_bytes),
            fnv1a_16(self.bus.work_ram.as_slice()),
            fnv1a_16(backup.as_slice()),
            fnv1a_16(misc_bytes),
            fnv1a_16(frame.as_slice()),
        ];
        r
    }
}

/// The hash starts from its offset basis and takes each byte in by exclusive or and a
/// multiplication by its prime; its halves, put together by exclusive or, are the short one.
pub proof fn short_hash_takes_bytes_in_turn(data: Seq<u8>, b: u8)
    ensures
        fnv1a_32(Seq::empty()) == 0x811C_9DC5,
        fnv1a_32(data.push(b)) == ((fnv1a_32(data) ^ (b as u32)) * 0x0100_0193) % 0x1_0000_0000,
        fnv1a_folded(data) == ((fnv1a_32(data) / 0x1_0000) as u16) ^ ((fnv1a_32(data) % 0x1_0000) as u16),
{
    assert(data.push(b).drop_last() =~= data);
    crate::bits::low_bits_are_remainders();
    crate::bits::shifts_are_digits();
}

} // verus!
