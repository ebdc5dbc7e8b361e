use emufight::neogeo::bus::SystemBus;
use emufight::neogeo::machine::Emulator;
use emufight::neogeo::video::palette_color;
use emufight::neogeo::z80::{PortIn, Z80Inner};

#[test]
fn palette_entries_have_five_bits_and_a_dark_one() {
    let mut pal = vec![0u8; 0x4000];
    pal[2..4].copy_from_slice(&[0x7F, 0xFF]);
    assert_eq!(palette_color(&pal, false, 0, 1, false), (255, 255, 255));
    assert_eq!(palette_color(&pal, false, 0, 1, true), (142, 142, 142));
    pal[2..4].copy_from_slice(&[0xFF, 0xFF]);
    assert_eq!(palette_color(&pal, false, 0, 1, false), (251, 251, 251));
    pal[2..4].copy_from_slice(&[0x4F, 0x00]);
    assert_eq!(palette_color(&pal, false, 0, 1, false), (255, 0, 0));
    assert_eq!(palette_color(&pal, true, 0, 1, false), (0, 0, 0));
}

fn lit() -> Emulator {
    let mut emu = Emulator::new();
    // Blue backdrop; palette 0, colour 1 is red.
    emu.bus.lspc.pal_ram[0x1FFE..0x2000].copy_from_slice(&[0x10, 0x0F]);
    emu.bus.lspc.pal_ram[2..4].copy_from_slice(&[0x4F, 0x00]);
    emu
}

#[test]
fn empty_screens_show_the_backdrop() {
    let mut emu = lit();
    emu.render();
    assert_eq!(emu.resolution(), (304, 224));
    assert_eq!(emu.framebuffer().len(), 304 * 224 * 3);
    assert_eq!(&emu.framebuffer()[..3], &[0, 0, 255]);
    assert_eq!(emu.video_frame_count(), 1);
}

#[test]
fn fix_tiles_cover_the_backdrop() {
    let mut emu = lit();
    emu.bus.lspc.brd_fix = true;
    // Tile 1 is all colour 1; it goes to the top left cell.
    emu.bus.roms.sfix_rom = vec![0x00; 64];
    for b in &mut emu.bus.roms.sfix_rom[32..64] {
        *b = 0x11;
    }
    let cell = (0x7000 + 0x20 + 2) * 2;
    emu.bus.lspc.vram[cell + 1] = 1;
    emu.render();
    assert_eq!(&emu.framebuffer()[..3], &[255, 0, 0]);
    assert_eq!(&emu.framebuffer()[8 * 3..8 * 3 + 3], &[0, 0, 255]);
    assert_eq!(&emu.framebuffer()[8 * 304 * 3..8 * 304 * 3 + 3], &[0, 0, 255]);
}

#[test]
fn sound_commands_are_taken_through_port_0() {
    let mut bus = SystemBus::new();
    let mut z80 = Z80Inner::new();
    bus.write_8(0x320000, 0x5A);
    assert_eq!(z80.do_port_in(0x0000, &mut bus), PortIn::Value(0x5A));
    assert_eq!(z80.do_port_in(0x0005, &mut bus), PortIn::Chip(1));
    assert_eq!(z80.do_port_out(0x0C, 0x77, &mut bus), None);
    assert_eq!(bus.sound_reply, 0x77);
}

#[test]
fn z80_memory_has_banks_and_ram() {
    let mut bus = SystemBus::new();
    let mut z80 = Z80Inner::new();
    let rom: Vec<u8> = (0..0x20000u32).map(|i| (i >> 11) as u8).collect();
    z80.set_m1_rom(&rom);
    assert_eq!(z80.read_mem(0x0800), 1);
    // Port 8 selects the 2 KB bank at F000 by the high byte.
    z80.do_port_in(0x0508, &mut bus);
    assert_eq!(z80.read_mem(0xF000), 5);
    z80.write_mem(0xF801, 0xAB);
    assert_eq!(z80.read_mem(0xF801), 0xAB);
    z80.write_mem(0x0000, 0xFF);
    assert_eq!(z80.read_mem(0x0000), 0);
}

#[test]
fn nmis_wait_until_they_are_enabled() {
    let mut bus = SystemBus::new();
    let mut z80 = Z80Inner::new();
    bus.write_8(0x320000, 1);
    let s = z80.begin_slice(12, &mut bus);
    assert!(s.due && !s.nmi);
    assert_eq!(s.target, 4);
    assert!(!bus.nmi_request);
    z80.do_port_out(0x08, 0, &mut bus);
    assert!(z80.take_nmi_fire());
    assert!(!z80.take_nmi_fire());
    // Two 68K cycles make no Z80 cycle, one more makes one.
    assert!(!z80.begin_slice(2, &mut bus).due);
    assert_eq!(z80.begin_slice(1, &mut bus).target, 5);
}

#[test]
fn debug_lines_show_the_board() {
    let mut emu = Emulator::new();
    emu.bus.wram.data[0xFD01] = 0x10;
    let line = emu.bios_debug_info(0xC00402);
    assert!(line.starts_with("PC=$C00402  pal_nz="), "{line}");
    assert!(line.contains("a0=$00100000"), "{line}");
    assert!(line.contains("d00038=$FF"), "{line}");
}

#[test]
fn subsystem_checksums_come_in_order() {
    let emu = Emulator::new();
    let cpu = emufight::save_state::M68kSnapshot {
        dar: [0; 16], dar_save: [0; 16], sr_save: 0, ppc: 0, pc: 0, sp: [0; 8], vbr: 0, sfc: 0,
        dfc: 0, cacr: 0, caar: 0, ir: 0, t1_flag: 0, t0_flag: 0, s_flag: 0, m_flag: 0, x_flag: 0,
        n_flag: 0, not_z_flag: 0, v_flag: 0, c_flag: 0, int_mask: 0, int_level: 0, stopped: 0,
        cycles_remaining: 0, initial_cycles: 0, change_of_flow: false, pref_addr: 0, pref_data: 0,
        instr_mode: 0, run_mode: 0, exception_processing: false, virq_state: 0, nmi_pending: 0,
    };
    let state = emu.build_save_state(cpu, vec![], vec![5]);
    let f = |d: &[u8]| emufight::save_state::fnv1a_16(d);
    let r = state.debug_checksums(&[1], &[2], &[3], &[4]);
    assert_eq!((r[0], r[1], r[2], r[3], r[6]), (f(&[1]), f(&[2]), f(&[5]), f(&[3]), f(&[4])));
    assert_eq!(r[4], f(&vec![0; 0x10000]));
    assert_eq!(r[7], f(&[0; 8]));
}
