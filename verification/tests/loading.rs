use emufight::neogeo::bus::SystemBus;
use emufight::neogeo::cart::cart_for;
use emufight::neogeo::disk_load::{
    collect_adpcm_roms_for, files_with_ext, load_into_bus, load_program_file, load_set, rom_request,
    try_load_system_roms_from_dir, RomRequest,
};
use emufight::neogeo::machine::Emulator;
use emufight::neogeo::memory_load::{collect_samples, load_roms_from_memory};
use emufight::rom_files::{has_ext, RomFile};

fn file(name: &str, data: &[u8]) -> RomFile {
    RomFile { name: name.to_string(), data: data.to_vec() }
}

fn set() -> Vec<RomFile> {
    vec![
        file("x-c2.c2", &[11, 12]),
        file("x-c1.c1", &[1, 2]),
        file("x-m1.m1", &[3]),
        file("x-s1.s1", &[4]),
        file("x-p1.p1", &[5, 6]),
        file("X-P2.SP2", &[7, 8]),
        file("x-v1.v1", &[9]),
    ]
}

#[test]
fn games_load_from_memory() {
    let mut emu = Emulator::new();
    load_roms_from_memory(&mut emu, "mslug", &set()).unwrap_or_else(|e| panic!("{e}"));
    assert_eq!(emu.bus.roms.p_rom, vec![5, 6, 7, 8]);
    assert_eq!(emu.bus.roms.c_rom, vec![1, 11, 2, 12]);
    assert_eq!(emu.bus.roms.m1_rom, vec![3]);
    assert_eq!(emu.bus.roms.s_rom, vec![4]);
    assert_eq!(collect_samples(&set()).0, vec![9]);
}

#[test]
fn incomplete_games_are_refused() {
    let mut emu = Emulator::new();
    let err = load_roms_from_memory(&mut emu, "mslug", &Vec::new()).err().unwrap();
    assert_eq!(err, "NeoGeo: empty ROM file map for 'mslug'");
    let err = load_roms_from_memory(&mut emu, "mslug", &vec![file("x-c1.c1", &[1])]).err().unwrap();
    assert_eq!(err, "NeoGeo: no program ROM (*.p1/…) found in file map for 'mslug'");
}

#[test]
fn loading_does_not_depend_on_the_order() {
    let mut reversed = set();
    reversed.reverse();
    let mut a = Emulator::new();
    load_roms_from_memory(&mut a, "mslug", &set()).unwrap_or_else(|e| panic!("{e}"));
    let mut b = Emulator::new();
    load_roms_from_memory(&mut b, "mslug", &reversed).unwrap_or_else(|e| panic!("{e}"));
    assert_eq!(a.bus.roms.p_rom, b.bus.roms.p_rom);
    assert_eq!(a.bus.roms.c_rom, b.bus.roms.c_rom);
    assert_eq!(a.bus.roms.m1_rom, b.bus.roms.m1_rom);
}

#[test]
fn names_are_compared_in_lower_case() {
    assert!(has_ext("242-P1.P1", "p1"));
    assert!(!has_ext("242-p1", "p1"));
    // Lower case is that of Unicode.
    let mut emu = Emulator::new();
    let files = vec![file("x-p1.p1", &[1, 2]), file("SP-S2.SP1", &[0, 1, 2, 3])];
    load_roms_from_memory(&mut emu, "mslug", &files).unwrap_or_else(|e| panic!("{e}"));
    assert_eq!(emu.bus.roms.bios_rom, vec![0, 1, 2, 3]);
}

#[test]
fn games_load_from_a_directory() {
    let mut bus = SystemBus::new();
    load_into_bus(&mut bus, &set(), "mslug");
    assert_eq!(bus.roms.p_rom, vec![5, 6, 7, 8]);
    assert_eq!(bus.roms.c_rom, vec![1, 11, 2, 12]);
    let (a, b) = collect_adpcm_roms_for(&set());
    assert_eq!((a, b), (vec![9], vec![]));
}

#[test]
fn system_roms_need_a_bios() {
    let mut bus = SystemBus::new();
    let err = try_load_system_roms_from_dir(&mut bus, None, "data/neogeo").err().unwrap();
    assert_eq!(err, "not a directory: data/neogeo");
    let none = Vec::new();
    let err = try_load_system_roms_from_dir(&mut bus, Some(&none), "data/neogeo").err().unwrap();
    assert_eq!(err, "no BIOS found in data/neogeo");
    let files = vec![file("sp-s2.sp1", &[9, 9]), file("sfix.sfix", &[7]), file("000-lo.lo", &[6])];
    try_load_system_roms_from_dir(&mut bus, Some(&files), "d").unwrap_or_else(|e| panic!("{e}"));
    assert_eq!(bus.roms.bios_rom, vec![9, 9]);
    assert_eq!(bus.roms.sfix_rom, vec![7]);
    assert_eq!(bus.roms.lo_rom, vec![6]);
}

#[test]
fn rom_arguments_name_sets_or_files() {
    assert!(matches!(rom_request(Some("kof98"), false), Ok(RomRequest::Folder(n)) if n == "kof98"));
    assert!(matches!(rom_request(Some("kof98"), true), Ok(RomRequest::ProgramFile(_))));
    assert!(matches!(rom_request(Some("roms/a.bin"), false), Ok(RomRequest::ProgramFile(_))));
    assert!(matches!(rom_request(Some("roms\\a"), false), Ok(RomRequest::ProgramFile(_))));
    assert_eq!(rom_request(None, false).err().unwrap(), "No ROM name given");
}

#[test]
fn sets_and_program_files_are_remembered() {
    let system = vec![file("sp-s2.sp1", &[9, 9])];
    let mut emu = Emulator::new();
    load_set(&mut emu, "mslug", &set(), None, Some(&system));
    assert_eq!(emu.boot_state_set(), "mslug");
    assert_eq!(emu.ym2610_adpcm_a, vec![9]);
    assert_eq!(emu.bus.roms.bios_rom, vec![9, 9]);
    load_program_file(&mut emu, vec![1, 2, 3, 4], Some(&system), None);
    assert_eq!(emu.boot_state_set(), "kof98");
    assert_eq!(emu.bus.roms.p_rom, vec![1, 2, 3, 4]);
}

#[test]
fn program_files_bypass_the_cartridge() {
    let mut image = vec![0u8; 0x200000];
    // A stack pointer of $0010F300 with swapped bytes, and code that the cartridge would move.
    image[..8].copy_from_slice(&[0x10, 0x00, 0x00, 0xF3, 1, 2, 3, 4]);
    image[0x900] = 0x5A;
    let mut emu = Emulator::new();
    emu.bus.cart = cart_for("kof98");
    load_program_file(&mut emu, image, None, None);
    let rom = &emu.bus.roms.p_rom;
    assert_eq!(rom.len(), 0x200000);
    assert_eq!(rom[..8], [0x00, 0x10, 0xF3, 0x00, 2, 1, 4, 3]);
    assert_eq!(rom[0x901], 0x5A);
}

#[test]
fn backup_ram_has_one_size() {
    let mut emu = Emulator::new();
    assert!(!emu.load_sram(&[1, 2, 3]));
    assert!(emu.load_sram(&[0x21; 0x10000]));
    assert_eq!(emu.backup_ram()[5], 0x21);
}

#[test]
fn files_of_a_directory_come_by_name() {
    let files = vec![
        file("b.p1", &[1]),
        file("x.c1", &[2]),
        file("a.P1", &[3]),
        file("b.p1", &[4]),
        file("B.p1", &[5]),
    ];
    assert_eq!(files_with_ext(&files, "p1"), vec![4, 2, 0, 3]);
    assert_eq!(files_with_ext(&files, "s1"), Vec::<usize>::new());
}

#[test]
fn names_that_differ_in_case_load_in_any_order() {
    let mut files = set();
    files.push(file("X-P1.P1", &[9, 9]));
    let mut a = Emulator::new();
    load_roms_from_memory(&mut a, "mslug", &files).unwrap_or_else(|e| panic!("{e}"));
    files.reverse();
    let mut b = Emulator::new();
    load_roms_from_memory(&mut b, "mslug", &files).unwrap_or_else(|e| panic!("{e}"));
    assert_eq!(a.bus.roms.p_rom, b.bus.roms.p_rom);
}
