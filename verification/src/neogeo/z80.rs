//! Sound CPU side of the NeoGeo board: Z80 memory map, I/O ports, clock division and
//! interrupt lines.
//!
//! | Range           | Description                             |
//! |-----------------|-----------------------------------------|
//! | `0x0000-0x7FFF` | M1 ROM fixed window (32 KB)             |
//! | `0x8000-0xBFFF` | M1 ROM 16 KB banked window (port `$0B`) |
//! | `0xC000-0xDFFF` | M1 ROM 8 KB banked window (port `$0A`)  |
//! | `0xE000-0xEFFF` | M1 ROM 4 KB banked window (port `$09`)  |
//! | `0xF000-0xF7FF` | M1 ROM 2 KB banked window (port `$08`)  |
//! | `0xF800-0xFFFF` | Z80 internal RAM (2 KB)                 |

use crate::bytes::{copied, same_bytes};
use crate::neogeo::bus::{m1_code, ActiveM1Rom, BusView, SystemBus};
use crate::save_state::{Z80Snapshot, Z80SnapshotView};
use vstd::prelude::*;

verus! {

/// Bytes of the Z80's internal RAM.
pub const Z80_RAM_SIZE: usize = 0x800;

/// Everything of the sound CPU's board but the CPU itself.
pub struct Z80Inner {
    pub wram: Vec<u8>,
    pub bank_f000: u32,
    pub bank_e000: u32,
    pub bank_c000: u32,
    pub bank_8000: u32,
    pub nmi_enabled: bool,
    /// An NMI arrived while it was disabled.
    pub nmi_requested: bool,
    /// An NMI is to be signalled after the current instruction.
    pub nmi_fire: bool,
    /// 68K cycles not yet turned into Z80 cycles.
    pub subcycle: u32,
    /// Z80 cycles granted so far.
    pub cycle_target: u64,
    /// YM2610 /INT level (0/1).
    pub int_line: i32,
    pub m1_rom: Vec<u8>,
}

/// What a [`Z80Inner`] holds.
#[verifier::ext_equal]
pub struct Z80View {
    pub wram: Seq<u8>,
    pub bank_f000: u32,
    pub bank_e000: u32,
    pub bank_c000: u32,
    pub bank_8000: u32,
    pub nmi_enabled: bool,
    pub nmi_requested: bool,
    pub nmi_fire: bool,
    pub subcycle: u32,
    pub cycle_target: u64,
    pub int_line: i32,
    pub m1_rom: Seq<u8>,
}

impl View for Z80Inner {
    type V = Z80View;

    open spec fn view(&self) -> Z80View {
        Z80View {
            wram: self.wram@,
            bank_f000: self.bank_f000,
            bank_e000: self.bank_e000,
            bank_c000: self.bank_c000,
            bank_8000: self.bank_8000,
            nmi_enabled: self.nmi_enabled,
            nmi_requested: self.nmi_requested,
            nmi_fire: self.nmi_fire,
            subcycle: self.subcycle,
            cycle_target: self.cycle_target,
            int_line: self.int_line,
            m1_rom: self.m1_rom@,
        }
    }
}

/// What a port read gives: a value, or the register of the sound chip to be read.
#[derive(Clone, Copy, Debug, PartialEq, Eq, Structural)]
pub enum PortIn {
    Value(u8),
    Chip(u8),
}

/// What the Z80 is to do in a slice of 68K time.
#[derive(Clone, Copy, Debug, PartialEq, Eq, Structural)]
pub struct Slice {
    /// Whether any Z80 cycle fell due.
    pub due: bool,
    /// The CPU is to be reset: its ROM was swapped.
    pub reset: bool,
    /// An NMI is to be signalled.
    pub nmi: bool,
    /// Level of the interrupt line.
    pub int_active: bool,
    /// The CPU runs until its cycle count reaches this.
    pub target: u64,
}

impl Z80View {
    /// The internal RAM has its size.
    pub open spec fn wf(self) -> bool {
        self.wram.len() == Z80_RAM_SIZE
    }

    pub open spec fn power_on() -> Z80View {
        Z80View {
            wram: Seq::new(Z80_RAM_SIZE as nat, |i: int| 0u8),
            bank_f000: 0,
            bank_e000: 0,
            bank_c000: 0,
            bank_8000: 0,
            nmi_enabled: false,
            nmi_requested: false,
            nmi_fire: false,
            subcycle: 0,
            cycle_target: 0,
            int_line: 0,
            m1_rom: Seq::empty(),
        }
    }

    /// All banks back to the start of the ROM.
    pub open spec fn banks_reset(self) -> Z80View {
        Z80View { bank_f000: 0, bank_e000: 0, bank_c000: 0, bank_8000: 0, ..self }
    }

    /// Another M1 ROM in place.
    pub open spec fn with_rom(self, rom: Seq<u8>) -> Z80View {
        (Z80View { m1_rom: rom, ..self }).banks_reset()
    }

    /// After a system reset; the ROM and the clocks stay.
    pub open spec fn after_reset(self) -> Z80View {
        (Z80View {
            wram: Seq::new(Z80_RAM_SIZE as nat, |i: int| 0u8),
            nmi_enabled: false,
            nmi_requested: false,
            nmi_fire: false,
            int_line: 0,
            ..self
        }).banks_reset()
    }

    /// A byte of the M1 ROM, which repeats; `0xFF` without one.
    pub open spec fn rom_byte(self, off: u32) -> u8 {
        if self.m1_rom.len() == 0 { 0xFF } else { self.m1_rom[off as int % (self.m1_rom.len() as int)] }
    }

    /// The byte at an address.
    pub open spec fn byte_at(self, addr: u16) -> u8 {
        if addr <= 0x7FFF {
            self.rom_byte(addr as u32)
        } else if addr <= 0xBFFF {
            self.rom_byte((self.bank_8000 << 14) | (addr as u32 & 0x3FFF))
        } else if addr <= 0xDFFF {
            self.rom_byte((self.bank_c000 << 13) | (addr as u32 & 0x1FFF))
        } else if addr <= 0xEFFF {
            self.rom_byte((self.bank_e000 << 12) | (addr as u32 & 0x0FFF))
        } else if addr <= 0xF7FF {
            self.rom_byte((self.bank_f000 << 11) | (addr as u32 & 0x07FF))
        } else {
            self.wram[addr - 0xF800]
        }
    }

    /// After a write: only the internal RAM takes it.
    pub open spec fn written(self, addr: u16, val: u8) -> Z80View {
        if addr >= 0xF800 {
            Z80View { wram: self.wram.update(addr - 0xF800, val), ..self }
        } else {
            self
        }
    }

    /// Value of a port read.
    pub open spec fn port_value(self, port: u16, bus: BusView) -> PortIn {
        let sel = (port as u8) & 0x0C;
        if sel == 0x00 {
            PortIn::Value(bus.sound_cmd)
        } else if sel == 0x04 {
            PortIn::Chip((port as u8) & 0x03)
        } else if sel == 0x08 {
            PortIn::Value(0x00)
        } else {
            PortIn::Value(0xFF)
        }
    }

    /// After a port read: port 0 takes the sound command, ports 8-11 select the bank that
    /// the high byte of the port address names.
    pub open spec fn after_port_in(self, port: u16) -> Z80View {
        let sel = (port as u8) & 0x0C;
        let which = (port as u8) & 0x03;
        let bank = ((port >> 8) & 0xFF) as u32;
        if sel == 0x00 {
            Z80View { nmi_requested: false, ..self }
        } else if sel == 0x08 {
            if which == 0 {
                Z80View { bank_f000: bank, ..self }
            } else if which == 1 {
                Z80View { bank_e000: bank, ..self }
            } else if which == 2 {
                Z80View { bank_c000: bank, ..self }
            } else {
                Z80View { bank_8000: bank, ..self }
            }
        } else {
            self
        }
    }

    /// After a port write: `$08` enables the NMI and lets a pending one fire, `$18`
    /// disables it.
    pub open spec fn after_port_out(self, port: u16) -> Z80View {
        let p = port as u8;
        if p & 0x1C == 0x08 {
            Z80View {
                nmi_enabled: true,
                nmi_fire: self.nmi_fire || self.nmi_requested,
                nmi_requested: false,
                ..self
            }
        } else if p & 0x1C == 0x18 {
            Z80View { nmi_enabled: false, ..self }
        } else {
            self
        }
    }

    /// Z80 cycles that fall due within 68K cycles: one in three.
    pub open spec fn due_cycles(self, m68k_cycles: int) -> int {
        (self.subcycle + m68k_cycles) / 3
    }

    /// After a slice was begun.
    pub open spec fn after_slice(self, m68k_cycles: int, bus: BusView) -> Z80View {
        let rest = Z80View { subcycle: ((self.subcycle + m68k_cycles) % 3) as u32, ..self };
        if self.due_cycles(m68k_cycles) == 0 {
            rest
        } else {
            let swapped = match bus.pending_m1_rom {
                Some(rom) => rest.with_rom(rom),
                None => rest,
            };
            Z80View {
                cycle_target: (self.cycle_target + self.due_cycles(m68k_cycles)) as u64,
                nmi_requested: self.nmi_requested || (bus.nmi_request && !self.nmi_enabled),
                ..swapped
            }
        }
    }

    /// Which ROM the snapshot names.
    pub open spec fn active_m1(self, bus: BusView) -> ActiveM1Rom {
        if self.m1_rom.len() == 0 {
            ActiveM1Rom::NoRom
        } else if self.m1_rom == bus.roms.sm1_rom {
            ActiveM1Rom::Sm1
        } else {
            ActiveM1Rom::Cart
        }
    }

    /// Restored from a snapshot; internal RAM of another size is not taken over, the ROM
    /// stays.
    pub open spec fn restored(self, snap: Z80SnapshotView) -> Z80View {
        Z80View {
            wram: if snap.wram.len() == self.wram.len() { snap.wram } else { self.wram },
            bank_f000: snap.bank_f000,
            bank_e000: snap.bank_e000,
            bank_c000: snap.bank_c000,
            bank_8000: snap.bank_8000,
            nmi_enabled: snap.nmi_enabled,
            nmi_requested: snap.nmi_requested,
            nmi_fire: snap.nmi_fire,
            subcycle: snap.subcycle,
            cycle_target: snap.cycle_target,
            int_line: snap.int_line,
            m1_rom: self.m1_rom,
        }
    }
}

impl Z80Inner {
    pub fn new() -> (r: Self)
        ensures
            r@ == Z80View::power_on(),
            r@.wf(),
    {
        let r = Z80Inner {
            wram: vec![0u8; Z80_RAM_SIZE],
            bank_f000: 0,
            bank_e000: 0,
            bank_c000: 0,
            bank_8000: 0,
            nmi_enabled: false,
            nmi_requested: false,
            nmi_fire: false,
            subcycle: 0,
            cycle_target: 0,
            int_line: 0,
            m1_rom: Vec::new(),
        };
        assert(r@ =~= Z80View::power_on());
        r
    }

    fn reset_banks(&mut self)
        ensures
            final(self)@ == old(self)@.banks_reset(),
    {
        self.bank_f000 = 0;
        self.bank_e000 = 0;
        self.bank_c000 = 0;
        self.bank_8000 = 0;
    }

    /// Replace the M1 ROM; the CPU is to be reset with it.
    pub fn set_m1_rom(&mut self, data: &[u8])
        ensures
            final(self)@ == old(self)@.with_rom(data@),
    {
        self.m1_rom = copied(data);
        self.reset_banks();
    }

    /// Reset the board side; the CPU is to be reset with it.
    pub fn reset(&mut self)
        ensures
            final(self)@ == old(self)@.after_reset(),
            final(self)@.wf(),
    {
        self.wram = vec![0u8; Z80_RAM_SIZE];
        self.nmi_enabled = false;
        self.nmi_requested = false;
        self.nmi_fire = false;
        self.int_line = 0;
        self.reset_banks();
        assert(self@.wram =~= old(self)@.after_reset().wram);
    }

    fn m1_byte(&self, off: u32) -> (r: u8)
        ensures
            r == self@.rom_byte(off),
    {
        if self.m1_rom.len() == 0 {
            return 0xFF;
        }
        let at: u64 = off as u64 % self.m1_rom.len() as u64;
        self.m1_rom[at as usize]
    }

    /// Read a byte of the Z80's address space.
    pub fn read_mem(&self, addr: u16) -> (r: u8)
        requires
            self@.wf(),
        ensures
            r == self@.byte_at(addr),
    {
        if addr <= 0x7FFF {
            self.m1_byte(addr as u32)
        } else if addr <= 0xBFFF {
            self.m1_byte((self.bank_8000 << 14) | (addr as u32 & 0x3FFF))
        } else if addr <= 0xDFFF {
            self.m1_byte((self.bank_c000 << 13) | (addr as u32 & 0x1FFF))
        } else if addr <= 0xEFFF {
            self.m1_byte((self.bank_e000 << 12) | (addr as u32 & 0x0FFF))
        } else if addr <= 0xF7FF {
            self.m1_byte((self.bank_f000 << 11) | (addr as u32 & 0x07FF))
        } else {
            self.wram[(addr - 0xF800) as usize]
        }
    }

    /// Write a byte of the Z80's address space.
    pub fn write_mem(&mut self, addr: u16, val: u8)
        requires
            old(self)@.wf(),
        ensures
            final(self)@ == old(self)@.written(addr, val),
            final(self)@.wf(),
    {
        if addr >= 0xF800 {
            self.wram.set((addr - 0xF800) as usize, val);
        }
    }

    /// Read an I/O port.  For `PortIn::Chip` the caller reads that register of the sound
    /// chip.
    pub fn do_port_in(&mut self, port: u16, bus: &mut SystemBus) -> (r: PortIn)
        ensures
            r == old(self)@.port_value(port, old(bus)@),
            final(self)@ == old(self)@.after_port_in(port),
            final(bus)@ == (if (port as u8) & 0x0C == 0x00 {
                BusView { sound_status: old(bus)@.sound_status | 1, ..old(bus)@ }
            } else {
                old(bus)@
            }),
    {
        let sel: u8 = (port as u8) & 0x0C;
        if sel == 0x00 {
            self.nmi_requested = false;
            bus.sound_status = bus.sound_status | 1;
            PortIn::Value(bus.sound_cmd)
        } else if sel == 0x04 {
            PortIn::Chip((port as u8) & 0x03)
        } else if sel == 0x08 {
            let bank: u32 = ((port >> 8) & 0xFF) as u32;
            let which: u8 = (port as u8) & 0x03;
            if which == 0 {
                self.bank_f000 = bank;
            } else if which == 1 {
                self.bank_e000 = bank;
            } else if which == 2 {
                self.bank_c000 = bank;
            } else {
                self.bank_8000 = bank;
            }
            PortIn::Value(0x00)
        } else {
            PortIn::Value(0xFF)
        }
    }

    /// Write an I/O port.  For `Some` register the caller writes the value to that register
    /// of the sound chip.
    pub fn do_port_out(&mut self, port: u16, val: u8, bus: &mut SystemBus) -> (r: Option<u8>)
        ensures
            final(self)@ == old(self)@.after_port_out(port),
            r == (if (port as u8) & 0x1C != 0x08 && (port as u8) & 0x1C != 0x18 && (port as u8) & 0x0C
                == 0x04 {
                Some((port as u8) & 0x03)
            } else {
                None
            }),
            final(bus)@ == (if (port as u8) & 0x1C != 0x08 && (port as u8) & 0x1C != 0x18 && (port as u8)
                & 0x0C == 0x0C {
                BusView { sound_reply: val, ..old(bus)@ }
            } else {
                old(bus)@
            }),
    {
        let p: u8 = port as u8;
        if (p & 0x1C) == 0x08 {
            self.nmi_enabled = true;
            if self.nmi_requested {
                self.nmi_fire = true;
                self.nmi_requested = false;
            }
            return None;
        }
        if (p & 0x1C) == 0x18 {
            self.nmi_enabled = false;
            return None;
        }
        let sel: u8 = p & 0x0C;
        if sel == 0x04 {
            Some(p & 0x03)
        } else {
            if sel == 0x0C {
                bus.sound_reply = val;
            }
            None
        }
    }

    /// Take over `m68k_cycles` 68K cycles: a third of them, with the remainder carried on,
    /// is what the Z80 is to run.  A queued ROM swap and a sound command's NMI are taken
    /// from the bus.
    pub fn begin_slice(&mut self, m68k_cycles: usize, bus: &mut SystemBus) -> (r: Slice)
        requires
            old(self).subcycle + m68k_cycles <= usize::MAX,
            old(self).cycle_target + old(self)@.due_cycles(m68k_cycles as int) <= u64::MAX,
        ensures
            final(self)@ == old(self)@.after_slice(m68k_cycles as int, old(bus)@),
            r.due == (old(self)@.due_cycles(m68k_cycles as int) > 0),
            r.due ==> {
                &&& r.reset == old(bus)@.pending_m1_rom is Some
                &&& r.nmi == (old(bus)@.nmi_request && old(self)@.nmi_enabled)
                &&& r.int_active == (old(self)@.int_line != 0)
                &&& r.target == final(self)@.cycle_target
            },
            !r.due ==> !r.reset && !r.nmi && !r.int_active && r.target == old(self)@.cycle_target,
            final(bus)@ == (if r.due {
                BusView { pending_m1_rom: None, nmi_request: false, ..old(bus)@ }
            } else {
                old(bus)@
            }),
    {
        let total_subcycles: usize = self.subcycle as usize + m68k_cycles;
        let cycles: usize = total_subcycles / 3;
        self.subcycle = (total_subcycles % 3) as u32;
        if cycles == 0 {
            return Slice {
                due: false,
                reset: false,
                nmi: false,
                int_active: false,
                target: self.cycle_target,
            };
        }
        let mut reset = false;
        match bus.pending_m1_rom.take() {
            Some(rom) => {
                self.m1_rom = rom;
                self.reset_banks();
                reset = true;
            },
            None => {},
        }
        self.cycle_target = self.cycle_target + cycles as u64;
        let mut nmi = false;
        if bus.nmi_request {
            bus.nmi_request = false;
            if self.nmi_enabled {
                nmi = true;
            } else {
                self.nmi_requested = true;
            }
        }
        Slice { due: true, reset, nmi, int_active: self.int_line != 0, target: self.cycle_target }
    }

    /// Take a pending NMI edge, once.
    pub fn take_nmi_fire(&mut self) -> (r: bool)
        ensures
            r == old(self)@.nmi_fire,
            final(self)@ == (Z80View { nmi_fire: false, ..old(self)@ }),
    {
        let fire = self.nmi_fire;
        self.nmi_fire = false;
        fire
    }

    pub fn cycle_target(&self) -> (r: u64)
        ensures
            r == self@.cycle_target,
    {
        self.cycle_target
    }

    /// The code of the M1 ROM in place.
    pub fn active_m1_code(&self, bus: &SystemBus) -> (r: u8)
        ensures
            r == m1_code(self@.active_m1(bus@)),
    {
        if self.m1_rom.len() == 0 {
            return ActiveM1Rom::NoRom.code();
        }
        if same_bytes(self.m1_rom.as_slice(), bus.roms.sm1_rom.as_slice()) {
            ActiveM1Rom::Sm1.code()
        } else {
            ActiveM1Rom::Cart.code()
        }
    }

    /// Capture the board side together with the CPU's own serialised registers.
    pub fn snapshot(&self, cpu_bytes: Vec<u8>, bus: &SystemBus) -> (r: Z80Snapshot)
        ensures
            r@ == (Z80SnapshotView {
                cpu_bytes: cpu_bytes@,
                wram: self@.wram,
                bank_f000: self@.bank_f000,
                bank_e000: self@.bank_e000,
                bank_c000: self@.bank_c000,
                bank_8000: self@.bank_8000,
                nmi_enabled: self@.nmi_enabled,
                nmi_requested: self@.nmi_requested,
                nmi_fire: self@.nmi_fire,
                int_line: self@.int_line,
                subcycle: self@.subcycle,
                cycle_target: self@.cycle_target,
                active_m1_rom: m1_code(self@.active_m1(bus@)),
            }),
    {
        Z80Snapshot {
            cpu_bytes,
            wram: copied(self.wram.as_slice()),
            bank_f000: self.bank_f000,
            bank_e000: self.bank_e000,
            bank_c000: self.bank_c000,
            bank_8000: self.bank_8000,
            nmi_enabled: self.nmi_enabled,
            nmi_requested: self.nmi_requested,
            nmi_fire: self.nmi_fire,
            int_line: self.int_line,
            subcycle: self.subcycle,
            cycle_target: self.cycle_target,
            active_m1_rom: self.active_m1_code(bus),
        }
    }

    /// Restore the board side; the CPU is restored from `cpu_bytes` beside it.
    pub fn restore(&mut self, snap: &Z80Snapshot)
        ensures
            final(self)@ == old(self)@.restored(snap@),
            old(self)@.wf() ==> final(self)@.wf(),
    {
        if snap.wram.len() == self.wram.len() {
            self.wram = copied(snap.wram.as_slice());
        }
        self.bank_f000 = snap.bank_f000;
        self.bank_e000 = snap.bank_e000;
        self.bank_c000 = snap.bank_c000;
        self.bank_8000 = snap.bank_8000;
        self.nmi_enabled = snap.nmi_enabled;
        self.nmi_requested = snap.nmi_requested;
        self.nmi_fire = snap.nmi_fire;
        self.subcycle = snap.subcycle;
        self.cycle_target = snap.cycle_target;
        self.int_line = snap.int_line;
    }

    /// Put the M1 ROM of a restored state in place; banks come from the snapshot.
    pub fn restore_m1_rom(&mut self, data: &[u8])
        ensures
            final(self)@ == (Z80View { m1_rom: data@, ..old(self)@ }),
    {
        self.m1_rom = copied(data);
    }
}

/// The 3:1 clock division loses nothing: granted Z80 cycles and the carried remainder
/// account for every 68K cycle.
pub proof fn clock_division_is_exact(s: Z80View, m68k_cycles: int, bus: BusView)
    requires
        0 <= m68k_cycles,
        s.cycle_target + s.due_cycles(m68k_cycles) <= u64::MAX,
    ensures
        ({
            let t = s.after_slice(m68k_cycles, bus);
            3 * (t.cycle_target - s.cycle_target) + t.subcycle == m68k_cycles + s.subcycle
        }),
        s.after_slice(m68k_cycles, bus).subcycle < 3,
{
}

/// Splitting a slice in two grants the same cycles.
pub proof fn slices_compose(s: Z80View, a: int, b: int, bus1: BusView, bus2: BusView, bus3: BusView)
    requires
        0 <= a,
        0 <= b,
        s.cycle_target + s.subcycle + a + b + 2 <= u64::MAX,
    ensures
        s.after_slice(a, bus1).after_slice(b, bus2).cycle_target == s.after_slice(
            a + b,
            bus3,
        ).cycle_target,
        s.after_slice(a, bus1).after_slice(b, bus2).subcycle == s.after_slice(a + b, bus3).subcycle,
{
}

/// An NMI that arrives while disabled is kept and fires once when the program enables it.
pub proof fn masked_nmi_is_kept(s: Z80View, m68k_cycles: int, bus: BusView, port: u16)
    requires
        bus.nmi_request,
        !s.nmi_enabled,
        s.due_cycles(m68k_cycles) > 0,
        (port as u8) & 0x1C == 0x08,
    ensures
        s.after_slice(m68k_cycles, bus).nmi_requested,
        s.after_slice(m68k_cycles, bus).after_port_out(port).nmi_fire,
        !s.after_slice(m68k_cycles, bus).after_port_out(port).nmi_requested,
{
}

/// A byte written to the internal RAM reads back and changes no other byte.
pub proof fn z80_ram_write_then_read(s: Z80View, a: u16, b: u16, v: u8)
    requires
        s.wf(),
        a >= 0xF800,
        b != a,
    ensures
        s.written(a, v).byte_at(a) == v,
        s.written(a, v).byte_at(b) == s.byte_at(b),
{
}

/// The windows into the ROM: the first 32 KB stand at 0; reading a port from 8 to 11 selects, by
/// the high byte of its address, which 2 KB stand at `$F000`, 4 KB at `$E000`, 8 KB at `$C000` and
/// 16 KB at `$8000`.
pub proof fn ports_select_their_windows(s: Z80View, bank: u8, k: u16)
    requires
        s.m1_rom.len() > 0,
    ensures
        ({
            let (rom, n) = (s.m1_rom, s.m1_rom.len() as int);
            &&& k < 0x8000 ==> s.byte_at(k) == rom[k as int % n]
            &&& k < 0x800 ==> s.after_port_in((bank * 0x100 + 8) as u16).byte_at((0xF000 + k) as u16) == rom[(bank
                * 0x800 + k) % n]
            &&& k < 0x1000 ==> s.after_port_in((bank * 0x100 + 9) as u16).byte_at((0xE000 + k) as u16) == rom[(bank
                * 0x1000 + k) % n]
            &&& k < 0x2000 ==> s.after_port_in((bank * 0x100 + 10) as u16).byte_at((0xC000 + k) as u16) == rom[(bank
                * 0x2000 + k) % n]
            &&& k < 0x4000 ==> s.after_port_in((bank * 0x100 + 11) as u16).byte_at((0x8000 + k) as u16) == rom[(bank
                * 0x4000 + k) % n]
        }),
{
    port_halves(bank, 8);
    port_halves(bank, 9);
    port_halves(bank, 10);
    port_halves(bank, 11);
    let b = bank as u32;
    let a = k as u32;
    assert((a < 0x800 ==> (b << 11) | (((0xF000 + a) as u32) & 0x07FF) == b * 0x800 + a) && (a < 0x1000 ==> (b << 12)
        | (((0xE000 + a) as u32) & 0x0FFF) == b * 0x1000 + a) && (a < 0x2000 ==> (b << 13) | (((0xC000 + a) as u32)
        & 0x1FFF) == b * 0x2000 + a) && (a < 0x4000 ==> (b << 14) | (((0x8000 + a) as u32) & 0x3FFF) == b * 0x4000
        + a)) by (bit_vector)
        requires
            b < 256,
            a < 0x1_0000,
    ;
}

proof fn port_halves(high: u8, low: u8)
    requires
        low < 32,
    ensures
        ({
            let port = (high * 0x100 + low) as u16;
            &&& (port as u8) & 0x0C == (low - low % 4) % 16
            &&& (port as u8) & 0x03 == low % 4
            &&& (port as u8) & 0x1C == low - low % 4
            &&& ((port >> 8) & 0xFF) == high
        }),
{
    let port = (high * 0x100 + low) as u16;
    assert((port as u8) & 0x0C == (low - low % 4) % 16 && (port as u8) & 0x03 == low % 4 && (port as u8) & 0x1C == low
        - low % 4 && ((port >> 8) & 0xFF) == high) by (bit_vector)
        requires
            port == high * 0x100 + low,
            low < 32,
    ;
}

/// Port 0 reads the command, which is then taken; ports 4 to 7 read the sound chip's registers 0
/// to 3; the others hold nothing.  Writing to port 8 enables the NMI and to 24 disables it.
pub proof fn ports_have_their_purposes(s: Z80View, bus: BusView, high: u8, r: u8)
    requires
        r < 4,
    ensures
        s.port_value((high * 0x100 + r) as u16, bus) == PortIn::Value(bus.sound_cmd),
        !s.after_port_in((high * 0x100 + r) as u16).nmi_requested,
        s.port_value((high * 0x100 + 4 + r) as u16, bus) == PortIn::Chip(r),
        s.after_port_in((high * 0x100 + 4 + r) as u16) == s,
        s.port_value((high * 0x100 + 8 + r) as u16, bus) == PortIn::Value(0),
        s.port_value((high * 0x100 + 12 + r) as u16, bus) == PortIn::Value(255),
        s.after_port_out((high * 0x100 + 8 + r) as u16).nmi_enabled,
        s.after_port_out((high * 0x100 + 8 + r) as u16).nmi_fire == (s.nmi_fire || s.nmi_requested),
        !s.after_port_out((high * 0x100 + 24 + r) as u16).nmi_enabled,
        s.after_port_out((high * 0x100 + r) as u16) == s,
{
    port_halves(high, r);
    port_halves(high, (4 + r) as u8);
    port_halves(high, (8 + r) as u8);
    port_halves(high, (12 + r) as u8);
    port_halves(high, (24 + r) as u8);
}

/// With another ROM, and after a reset, every window shows the ROM from its start.
pub proof fn windows_start_over(s: Z80View, rom: Seq<u8>, k: u16)
    requires
        rom.len() > 0,
        k < 0x800,
    ensures
        ({
            let t = s.with_rom(rom);
            let u = (Z80View { m1_rom: rom, ..s }).after_reset();
            let first = rom[k as int % (rom.len() as int)];
            &&& t.byte_at(k) == first
            &&& t.byte_at((0x8000 + k) as u16) == first
            &&& t.byte_at((0xC000 + k) as u16) == first
            &&& t.byte_at((0xE000 + k) as u16) == first
            &&& t.byte_at((0xF000 + k) as u16) == first
            &&& u.byte_at((0x8000 + k) as u16) == first
            &&& u.byte_at((0xC000 + k) as u16) == first
            &&& u.byte_at((0xE000 + k) as u16) == first
            &&& u.byte_at((0xF000 + k) as u16) == first
            &&& u.byte_at((0xF800 + k) as u16) == 0
            &&& !u.nmi_enabled
            &&& !u.nmi_requested
            &&& !u.nmi_fire
            &&& t.wram == s.wram
        }),
        (Z80View { m1_rom: Seq::empty(), ..s }).byte_at(k) == 0xFF,
{
    let a = k as u32;
    assert((0u32 << 11) | (((0xF000 + a) as u32) & 0x07FF) == a && (0u32 << 12) | (((0xE000 + a) as u32) & 0x0FFF) == a
        && (0u32 << 13) | (((0xC000 + a) as u32) & 0x1FFF) == a && (0u32 << 14) | (((0x8000 + a) as u32) & 0x3FFF)
        == a) by (bit_vector)
        requires
            a < 0x800,
    ;
}

} // verus!
