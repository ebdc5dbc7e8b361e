use emufight::cps::bus::CpsBus;
use emufight::cps::config::{find, sf2, sf2ce, GFXTYPE_SCROLL1, GFXTYPE_SPRITES};
use emufight::cps::machine::{after_slice, fold_checksums, CpsEmulator};
use emufight::cps::oki::Oki;
use emufight::cps::romset::load;
use emufight::cps::sound::{ChipWrite, CpsSound, FrameClock, SoundRead};
use emufight::cps::video::CpsVideo;
use emufight::io::InputState;
use emufight::rom_files::RomFile;

#[test]
fn only_two_games_are_known() {
    assert_eq!(find("sf2").map(|g| g.cpu_clock), Some(10_000_000));
    assert_eq!(find("sf2ce").map(|g| g.cpu_clock), Some(12_000_000));
    assert!(find("sf2hf").is_none());
}

#[test]
fn tile_codes_map_into_banks() {
    let g = sf2();
    assert_eq!(g.gfxrom_bank_mapper(GFXTYPE_SPRITES, 0), 0);
    assert_eq!(g.gfxrom_bank_mapper(GFXTYPE_SPRITES, 0x4000), 0x4000);
    assert_eq!(g.gfxrom_bank_mapper(GFXTYPE_SCROLL1, 0x4000), 0x10000 + 0x4000);
    // No range holds this code.
    assert_eq!(g.gfxrom_bank_mapper(GFXTYPE_SCROLL1, 0), -1);
}

#[test]
fn cps_work_ram_reads_back() {
    let mut bus = CpsBus::new(sf2());
    bus.write_16(0xff1234, 0xBEEF);
    assert_eq!(bus.read_16(0xff1234), 0xBEEF);
    assert_eq!(bus.read_byte(0xff1235), 0xEF);
    bus.write_byte(0xff1234, 0x12);
    assert_eq!(bus.read_16(0xff1234), 0x12EF);
    bus.write_long(0xff2000, 0x0102_0304);
    assert_eq!(bus.read_long(0xff2000), 0x0102_0304);
    assert_eq!(bus.work_ram()[0x2003], 4);
}

#[test]
fn cps_rom_is_not_written() {
    let mut bus = CpsBus::new(sf2());
    bus.program = vec![0x11, 0x22, 0x33, 0x44];
    bus.write_16(0, 0xFFFF);
    assert_eq!(bus.read_16(0), 0x1122);
    assert_eq!(bus.read_16(4), 0xFFFF);
    assert_eq!(bus.read_16(0x500000), 0xFFFF);
}

#[test]
fn multiplier_answers_with_the_product() {
    let mut bus = CpsBus::new(sf2ce());
    bus.write_16(0x800140, 0x1234);
    bus.write_16(0x800142, 0x5678);
    let product = 0x1234u32 * 0x5678;
    assert_eq!(bus.read_16(0x800144) as u32, product & 0xFFFF);
    assert_eq!(bus.read_16(0x800146) as u32, product >> 16);
    // The other game has a self-test value and no multiplier.
    let mut bus = CpsBus::new(sf2());
    assert_eq!(bus.read_16(0x800172), 0x0401);
    bus.write_16(0x800140, 7);
    assert_eq!(bus.read_16(0x800140), 7);
}

#[test]
fn switches_sit_in_the_high_byte() {
    let mut bus = CpsBus::new(sf2());
    bus.dswa = 0x12;
    assert_eq!(bus.read_16(0x80001a), 0x12FF);
    assert_eq!(bus.read_16(0x800018), 0xFFFF);
    bus.write_16(0x800181, 0x42);
    assert_eq!((bus.sound_latch, bus.sound_latch_pending), (0x42, true));
}

#[test]
fn cps_bus_snapshot_restores() {
    let mut bus = CpsBus::new(sf2ce());
    bus.write_16(0xff0000, 0xABCD);
    bus.write_16(0x900010, 0x1111);
    bus.write_16(0x800100, 0x2222);
    bus.write_16(0x800140, 0x3333);
    let snap = bus.snapshot();
    let mut other = CpsBus::new(sf2ce());
    other.restore(&snap);
    assert_eq!(other.read_16(0xff0000), 0xABCD);
    assert_eq!(other.read_16(0x900010), 0x1111);
    assert_eq!(other.cps_a[0], 0x2222);
    assert_eq!(other.cps_b[0], 0x3333);
}

#[test]
fn controls_reach_their_ports() {
    let mut m = CpsEmulator::new();
    m.set_input(InputState::default());
    assert_eq!((m.bus.in0, m.bus.in1, m.bus.in2), (0xFF, 0xFFFF, 0xFFFF));
    // Player 1: up and the first button; player 2: right.
    m.set_input(InputState { p1: 0xEE, p2: 0xF7, ..InputState::default() });
    assert_eq!(m.bus.in1 & 0xFF, 0xFF & !0x08 & !0x10);
    assert_eq!(m.bus.in1 >> 8, 0xFE);
    // Coin 1 and the start of player 2.
    m.set_input(InputState { coin: 0x3E, sys: 0xFB, ..InputState::default() });
    assert_eq!(m.bus.in0, 0xFF & !0x01 & !0x20);
    // The fourth, fifth and sixth button.
    m.set_input(InputState { p1: 0x7F, ext: 0x0C, ..InputState::default() });
    assert_eq!(m.bus.in2, 0xFFF8);
}

#[test]
fn frames_are_split_into_periods_and_slices() {
    let mut m = CpsEmulator::new();
    let plan = m.begin_frame();
    assert_eq!(plan.active + plan.vblank, 10_000_000 / 60);
    assert_eq!(plan.active, 166_666 * 240 / 262);
    assert_eq!(m.next_slice(10_000).map(|s| s.1), Some(4000));
    assert_eq!(m.next_slice(100).map(|s| s.1), Some(100));
    assert!(m.next_slice(0).is_none());
    assert_eq!(after_slice(100, 0), 99);
    assert_eq!(after_slice(100, 120), -20);
    let before = m.bus.irq_level();
    m.raise_vblank();
    assert!(before == 0 && m.bus.irq_level() > 0);
}

#[test]
fn unknown_cps_sets_are_refused() {
    let mut m = CpsEmulator::new();
    assert_eq!(m.load_roms(Some("1942"), None).err().unwrap(), "unsupported CPS1 game '1942'");
    assert!(m.load_roms(None, None).is_err());
    let none: Vec<RomFile> = Vec::new();
    assert!(load("sf2", Some(&none)).is_err());
}

fn sf2_files() -> Vec<RomFile> {
    [
        "sf2_30f.11f", "sf2_31f.12f", "sf2_28f.9f", "sf2_06.8a", "sf2_08.10a", "sf2_05.7a",
        "sf2_07.9a", "sf2_15.3a", "sf2_17.5a", "sf2_14.2a", "sf2_16.4a", "sf2_09.12a",
        "sf2_18.11c", "sf2_19.12c",
    ]
    .iter()
    .enumerate()
    .map(|(i, n)| RomFile { name: n.to_string(), data: vec![2 * i as u8, 2 * i as u8 + 1, 0xAA, 0xBB] })
    .collect()
}

#[test]
fn cps_chips_are_put_in_their_places() {
    let mut m = CpsEmulator::new();
    m.load_roms(Some("sf2"), Some(&sf2_files())).unwrap_or_else(|e| panic!("{e}"));
    // Program words are swapped.
    assert_eq!(&m.bus.program[..4], &[1, 0, 0xBB, 0xAA]);
    assert_eq!(&m.bus.program[0x40000..0x40004], &[3, 2, 0xBB, 0xAA]);
    assert!(matches!(m.sound.read_mem(0), SoundRead::Value(22)));
}

#[test]
fn graphics_chips_are_interleaved_by_words() {
    let roms = load("sf2", Some(&sf2_files())).unwrap_or_else(|e| panic!("{e}"));
    assert_eq!(&roms.gfx[..8], &[6, 7, 8, 9, 10, 11, 12, 13]);
    assert_eq!(&roms.gfx[8..16], &[0xAA, 0xBB, 0xAA, 0xBB, 0xAA, 0xBB, 0xAA, 0xBB]);
    assert_eq!(&roms.gfx[0x200000..0x200002], &[14, 15]);
    assert_eq!(roms.oki[0x20000], 26);
}

#[test]
fn cps_machine_state_restores() {
    let mut m = CpsEmulator::new();
    m.load_roms(Some("sf2"), Some(&sf2_files())).unwrap_or_else(|e| panic!("{e}"));
    m.begin_frame();
    m.bus.write_16(0xff0000, 0x1234);
    m.bus.write_16(0x800181, 9);
    m.forward_sound_command();
    assert!(!m.bus.sound_latch_pending);
    m.complete_frame();
    let cpu = emufight::save_state::M68kSnapshot {
        dar: [0; 16], dar_save: [0; 16], sr_save: 0, ppc: 0, pc: 0x1000, sp: [0; 8], vbr: 0, sfc: 0,
        dfc: 0, cacr: 0, caar: 0, ir: 0, t1_flag: 0, t0_flag: 0, s_flag: 4, m_flag: 0, x_flag: 0,
        n_flag: 0, not_z_flag: 0, v_flag: 0, c_flag: 0, int_mask: 0, int_level: 0, stopped: 0,
        cycles_remaining: 0, initial_cycles: 0, change_of_flow: false, pref_addr: 0, pref_data: 0,
        instr_mode: 0, run_mode: 0, exception_processing: false, virq_state: 0, nmi_pending: 0,
    };
    let state = m.build_save_state(cpu, vec![1], vec![2]);
    assert_eq!((state.version, state.frame, state.cpu.pc), (1, 1, 0x1000));
    assert!(state.sound.is_valid());
    let mut other = CpsEmulator::new();
    other.load_roms(Some("sf2"), Some(&sf2_files())).unwrap_or_else(|e| panic!("{e}"));
    other.apply_save_state(&state);
    assert_eq!(other.frame(), 1);
    assert_eq!(other.bus.read_16(0xff0000), 0x1234);
    assert!(matches!(other.sound.read_mem(0xf008), SoundRead::Value(9)));
    assert_eq!(other.audio_sample_count(), m.audio_sample_count());
    // Drawing changes nothing that is saved.
    other.render();
    let again = other.build_save_state(cpu, vec![1], vec![2]);
    assert_eq!(again.bus.work_ram, state.bus.work_ram);
    assert_eq!(again.buffered_obj, state.buffered_obj);
    assert_eq!(m.resolution(), (384, 224));
}

#[test]
fn checksum_lanes_are_fnv_folds() {
    let lanes = fold_checksums(&[]);
    let h = 0xcbf2_9ce4_8422_2325u64;
    let empty = (h ^ (h >> 16) ^ (h >> 32) ^ (h >> 48)) as u16;
    assert_eq!(lanes, [empty; 8]);
    let lanes = fold_checksums(&[1]);
    let h = (h ^ 1).wrapping_mul(0x0000_0100_0000_01b3);
    assert_eq!(lanes[0], (h ^ (h >> 16) ^ (h >> 32) ^ (h >> 48)) as u16);
    assert_eq!(lanes[1], empty);
}

#[test]
fn sound_board_memory() {
    let mut s = CpsSound::new();
    let rom: Vec<u8> = (0..0x10000u32).map(|i| (i >> 8) as u8).collect();
    s.load_z80_rom(&rom);
    assert!(matches!(s.read_mem(0x7fff), SoundRead::Value(0x7f)));
    assert!(matches!(s.read_mem(0x8000), SoundRead::Value(0x80)));
    s.write_mem(0xf004, 0x11);
    assert!(matches!(s.read_mem(0x8000), SoundRead::Value(0xc0)));
    s.write_mem(0xd123, 0x5A);
    assert!(matches!(s.read_mem(0xd123), SoundRead::Value(0x5A)));
    assert!(matches!(s.read_mem(0xf001), SoundRead::ChipStatus));
    assert!(matches!(s.write_mem(0xf000, 3), Some(ChipWrite::Address(3))));
    assert!(matches!(s.write_mem(0xf001, 4), Some(ChipWrite::Data(4))));
    s.set_latch(8);
    assert!(matches!(s.read_mem(0xf008), SoundRead::Value(8)));
    let snap = s.snapshot(vec![], vec![]);
    s.reset();
    assert!(matches!(s.read_mem(0xd123), SoundRead::Value(0)));
    s.restore(&snap);
    assert!(matches!(s.read_mem(0xd123), SoundRead::Value(0x5A)));
    assert!(matches!(s.read_mem(0x8000), SoundRead::Value(0xc0)));
}

#[test]
fn chip_samples_follow_the_clock() {
    let mut c = FrameClock::new();
    assert!(c.unfinished());
    assert_eq!((c.after(63), c.after(1), c.after(130)), (0, 1, 2));
    assert_eq!((c.ran, c.pending), (194, 2));
    c.after(59_659);
    assert!(!c.unfinished());
}

#[test]
fn adpcm_phrases_play_and_stop() {
    let mut rom = vec![0u8; 0x1000];
    // Phrase 1: bytes 0x400 to 0x4FF.
    rom[8..14].copy_from_slice(&[0, 4, 0, 0, 4, 0xFF]);
    for b in &mut rom[0x400..0x500] {
        *b = 0x77;
    }
    let mut oki = Oki::new();
    oki.rom = rom;
    assert_eq!(oki.next_sample(), 0);
    oki.write_command(0x81);
    oki.write_command(0x10);
    assert!(oki.voices[0].playing && !oki.voices[1].playing);
    assert_eq!((oki.voices[0].position, oki.voices[0].volume), (0x800, 32));
    let mut loud = false;
    for _ in 0..200 {
        loud = loud || oki.next_sample() != 0;
    }
    assert!(loud);
    oki.write_command(0x20);
    assert!(oki.voices[0].playing);
    oki.write_command(0x10);
    assert!(!oki.voices[0].playing);
    oki.advance(3);
    assert_eq!(oki.ring.len(), 3);
    assert_eq!(oki.pop_sample(), 0);
    oki.clear_ring();
    assert_eq!(oki.pop_sample(), 0);
}

#[test]
fn cps_pictures_start_from_the_backdrop() {
    let mut bus = CpsBus::new(sf2());
    // Palette at 0x900000, all pages; brightest white as the backdrop.
    bus.write_16(0x80010a, 0x9000);
    bus.write_16(0x800170, 0x003f);
    bus.write_16(0x900000 + 2 * 0xbff, 0xffff);
    let mut v = CpsVideo::new();
    v.render(&bus);
    let fb = v.framebuffer();
    assert_eq!(fb.len(), 384 * 224 * 3);
    assert!(fb.iter().all(|&b| b == 255));
    // Half-bright red: 15 * 17 * 15 / 45.
    bus.write_16(0x900000 + 2 * 0xbff, 0x0f00);
    v.render(&bus);
    assert_eq!(&v.framebuffer()[..3], &[85, 0, 0]);
}

#[test]
fn sprite_tables_are_latched() {
    let mut bus = CpsBus::new(sf2());
    bus.write_16(0x800100, 0x9100);
    bus.write_16(0x910000, 0x0123);
    let mut v = CpsVideo::new();
    v.buffer_sprites(&bus);
    bus.write_16(0x910000, 0x0456);
    let latched = v.snapshot_obj();
    assert_eq!(latched.len(), 0x400);
    assert_eq!(latched[0], 0x0123);
    let mut other = CpsVideo::new();
    other.restore_obj(&latched);
    assert_eq!(other.snapshot_obj(), latched);
}
