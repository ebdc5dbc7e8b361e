use emufight::io::InputState;
use emufight::neogeo::bus::{
    SystemBus, AES_TRAINING_HW_DIPS, BIOS_MVS_FLAG_OFF, REG_BRDFIX, REG_CRTFIX, REG_DIPSW, REG_SOUND, REG_STATUS_B,
    REG_VRAMADDR, REG_VRAMMOD, REG_VRAMRW, SRAM_START,
};

fn make_bus() -> SystemBus {
    let mut bus = SystemBus::new();
    // Minimal BIOS: 512 KB, all 0xFF (open bus pattern).
    bus.roms.bios_rom = vec![0xFF; 0x80000];
    bus
}

#[test]
fn wram_write_read_roundtrip() {
    let mut bus = make_bus();
    bus.write_8(0x100042, 0xAB);
    assert_eq!(bus.read_8(0x100042), 0xAB);
}

#[test]
fn wram_16bit_roundtrip() {
    let mut bus = make_bus();
    bus.write_16(0x100100, 0xDEAD);
    assert_eq!(bus.read_16(0x100100), 0xDEAD);
}

#[test]
fn bios_mirrors_to_000000_before_swprom() {
    let mut bus = make_bus();
    bus.roms.bios_rom[0] = 0x11;
    bus.roms.bios_rom[1] = 0x22;
    // swp_rom = false (boot default): the BIOS mirrors to $000000.
    assert_eq!(bus.read_8(0x000000), 0x11);
    assert_eq!(bus.read_8(0x000001), 0x22);
}

#[test]
fn prom_maps_after_swprom() {
    let mut bus = make_bus();
    bus.roms.p_rom = vec![0x55; 0x10000];
    bus.roms.p_rom[0] = 0xAA;
    bus.swp_rom = true;
    assert_eq!(bus.read_8(0x000000), 0xAA, "P-ROM byte 0 should be visible after swp_rom");
}

#[test]
fn sram_default_is_ff() {
    let bus = make_bus();
    // An uninitialised SRAM should read $FF (dead-battery default).
    assert_eq!(bus.backup_ram()[0], 0xFF);
    assert_eq!(bus.read_8(SRAM_START), 0xFF);
}

#[test]
fn sram_write_read_roundtrip() {
    let mut bus = make_bus();
    // SRAM is write-protected at boot; must enable via REG_SRAMEN first.
    bus.sram.writable = true;
    bus.write_8(0xD00010, 0x42);
    assert_eq!(bus.read_8(0xD00010), 0x42);
}

#[test]
fn sram_write_protect_blocks_writes() {
    let mut bus = make_bus();
    // Default: write-protected. Writes must be silently ignored.
    bus.write_8(0xD00010, 0x42);
    assert_eq!(bus.read_8(0xD00010), 0xFF, "SRAM should still be 0xFF when write-protected");
}

#[test]
fn memcard_odd_bytes_accessible() {
    let mut bus = make_bus();
    bus.write_8(0x800001, 0x7E); // odd address
    assert_eq!(bus.read_8(0x800001), 0x7E);
}

#[test]
fn memcard_even_bytes_are_open_bus() {
    let mut bus = make_bus();
    bus.open_bus = 0xABCD;
    assert_eq!(bus.read_8(0x800000), 0xAB, "even memcard byte = open bus");
}

#[test]
fn vram_write_16_auto_increments_addr() {
    let mut bus = make_bus();
    bus.write_16(REG_VRAMADDR, 0x0000); // set VRAM address
    bus.write_16(REG_VRAMMOD, 4); // set step
    bus.write_16(REG_VRAMRW, 0x1234); // write, auto-increments by 4
    // After the write, reading VRAMADDR should return 4.
    assert_eq!(bus.lspc.vram_addr, 4, "VRAM address should have advanced by vram_mod");
}

#[test]
fn sound_cmd_write_sets_nmi_request() {
    let mut bus = make_bus();
    bus.write_8(REG_SOUND, 0x5A);
    assert_eq!(bus.sound_cmd, 0x5A);
    assert!(bus.nmi_request, "sound cmd write must assert nmi_request");
}

#[test]
fn prom_bank_select_affects_200000_window() {
    let mut bus = make_bus();
    // 3 MB image so we have room for bank 0 (0x100000) and bank 1 (0x200000) views
    bus.roms.p_rom = vec![0u8; 0x300000];
    // Marker visible when bank base = 0x100000 (typical "bank 0" selectable)
    bus.roms.p_rom[0x100000] = 0xAA;
    bus.roms.p_rom[0x100001] = 0x55;
    // Marker for next bank base 0x200000
    bus.roms.p_rom[0x200000] = 0xBB;
    bus.roms.p_rom[0x200001] = 0x66;

    // Default is 0x100000
    assert_eq!(
        bus.read_8(0x200000),
        0xAA,
        "default bank base should expose 0x100000 image offset"
    );

    // Write to banksel with value whose low bits = 1 -> 0x100000 + 1<<20 = 0x200000
    bus.write_16(0x2FFFF0, 1);
    assert_eq!(bus.read_8(0x200000), 0xBB);
    assert_eq!(bus.read_8(0x200001), 0x66);

    // Back to "bank 0" view
    bus.write_16(0x2FFFF2, 0);
    assert_eq!(bus.read_8(0x200000), 0xAA);
}

#[test]
fn palette_bank_switch_affects_400000_reads() {
    let mut bus = make_bus();
    // Write distinct values into both banks via the active mapping
    bus.lspc.pal_bank = false;
    bus.write_8(0x400000, 0x11);
    bus.lspc.pal_bank = true;
    bus.write_8(0x400000, 0x22);

    bus.lspc.pal_bank = false;
    assert_eq!(bus.read_8(0x400000), 0x11, "bank 0 visible");
    bus.lspc.pal_bank = true;
    assert_eq!(bus.read_8(0x400000), 0x22, "bank 1 visible");
}

#[test]
fn unmapped_areas_return_open_bus() {
    let mut bus = make_bus();
    bus.open_bus = 0xBEEF;
    // Some high unmapped address (outside all defined ranges)
    assert_eq!(bus.read_8(0xE00000), 0xBE);
    assert_eq!(bus.read_8(0xE00001), 0xEF);
}

#[test]
fn presentation_latch_forces_aes_mvs_on_status_b() {
    let mut bus = make_bus();
    bus.set_presentation_aes(true);
    bus.apply_input(InputState::default());
    assert_eq!(bus.input.sys & 0x80, 0, "AES: bit 7 low");
    assert_eq!(bus.read_8(REG_STATUS_B), bus.input.sys);
    assert_eq!(bus.read_8(REG_DIPSW), AES_TRAINING_HW_DIPS, "training freeplay dip");

    bus.set_presentation_aes(false);
    bus.apply_input(InputState::default());
    assert_eq!(bus.input.sys & 0x80, 0x80, "MVS: bit 7 high");
    assert_eq!(bus.read_8(REG_STATUS_B), bus.input.sys);
    assert_eq!(bus.read_8(REG_DIPSW), 0xFF, "MVS default dips");
}

#[test]
fn aes_presentation_clears_bios_mvs_flag_after_cart_swap() {
    let mut bus = make_bus();
    bus.wram.data[BIOS_MVS_FLAG_OFF] = 0x80;
    bus.set_presentation_aes(true);
    // While in BIOS mode (swp_rom = false) the flag must be left alone so
    // the BIOS RAM POST can use $10FD82 as a scratch target.
    bus.apply_input(InputState::default());
    assert_eq!(bus.wram.data[BIOS_MVS_FLAG_OFF], 0x80);

    // Once the BIOS hands control to the cart the flag is forced to 0.
    bus.swp_rom = true;
    bus.apply_input(InputState::default());
    assert_eq!(bus.wram.data[BIOS_MVS_FLAG_OFF], 0);
}

#[test]
fn wide_accesses_are_big_endian() {
    let mut bus = make_bus();
    bus.write_32(0x100200, 0x0102_0304);
    assert_eq!(bus.read_8(0x100200), 1);
    assert_eq!(bus.read_8(0x100203), 4);
    assert_eq!(bus.read_16(0x100202), 0x0304);
    assert_eq!(bus.read_32(0x100200), 0x0102_0304);
}

#[test]
fn addresses_have_24_bits() {
    let mut bus = make_bus();
    bus.write_8(0xFF10_0042, 0x5C);
    assert_eq!(bus.read_8(0x100042), 0x5C);
    assert_eq!(bus.read_8(0x0110_0042), 0x5C);
}

#[test]
fn sram_registers_switch_protection() {
    let mut bus = make_bus();
    bus.write_8(0x3A001D, 0);
    bus.write_8(0xD00020, 0x11);
    bus.write_8(0x3A000D, 0);
    bus.write_8(0xD00020, 0x22);
    assert_eq!(bus.read_8(0xD00020), 0x11);
}

#[test]
fn swap_registers_choose_the_vectors() {
    let mut bus = make_bus();
    bus.roms.p_rom = vec![0x55; 0x10000];
    bus.write_8(0x3A0013, 0);
    assert_eq!(bus.read_8(0x000000), 0x55);
    bus.write_8(0x3A0003, 0);
    assert_eq!(bus.read_8(0x000000), 0xFF);
}

#[test]
fn a_byte_swapped_bios_is_put_right() {
    let mut bus = SystemBus::new();
    bus.load_bios_bytes(&[0x10, 0x00, 0x00, 0xF3]).unwrap();
    assert_eq!(bus.roms.bios_rom, vec![0x00, 0x10, 0xF3, 0x00]);
    bus.load_bios_bytes(&[0x00, 0x10, 0xF3, 0x00]).unwrap();
    assert_eq!(bus.roms.bios_rom, vec![0x00, 0x10, 0xF3, 0x00]);
}

#[test]
fn bus_snapshot_restores_everything_it_holds() {
    let mut bus = make_bus();
    bus.write_16(0x100100, 0xDEAD);
    bus.write_8(0x800001, 0x7E);
    bus.write_8(REG_SOUND, 0x5A);
    bus.lspc.vram_addr = 0x40;
    let snap = bus.snapshot();
    let mut other = make_bus();
    other.write_16(0x100100, 1);
    other.restore(snap);
    assert_eq!(other.read_16(0x100100), 0xDEAD);
    assert_eq!(other.read_8(0x800001), 0x7E);
    assert_eq!(other.sound_cmd, 0x5A);
    assert_eq!(other.lspc.vram_addr, 0x40);
}

#[test]
fn a_restored_bus_queues_the_swap_again() {
    let mut bus = make_bus();
    bus.roms.sm1_rom = vec![1; 16];
    bus.roms.m1_rom = vec![2; 16];
    let plain = bus.snapshot();
    assert_eq!(plain.pending_m1_swap, 0);
    bus.write_8(REG_BRDFIX, 0);
    let system = bus.snapshot();
    assert_eq!(system.pending_m1_swap, 1);
    bus.write_8(REG_CRTFIX, 0);
    let cart = bus.snapshot();
    assert_eq!(cart.pending_m1_swap, 2);

    bus.set_presentation_aes(true);
    bus.restore(plain);
    assert_eq!(bus.pending_m1_rom, None);
    bus.restore(system);
    assert_eq!(bus.pending_m1_rom, Some(vec![1; 16]));
    assert_eq!(bus.snapshot().pending_m1_swap, 1);
    bus.restore(cart);
    assert_eq!(bus.pending_m1_rom, Some(vec![2; 16]));
    assert_eq!(bus.snapshot().pending_m1_swap, 2);
    assert_eq!((bus.roms.sm1_rom.len(), bus.roms.m1_rom.len()), (16, 16));
    assert_eq!(bus.presentation_aes, Some(true));
}

#[test]
fn a_swap_of_no_known_code_is_none() {
    let mut bus = make_bus();
    bus.roms.sm1_rom = vec![1; 16];
    let mut snap = bus.snapshot();
    snap.pending_m1_swap = 3;
    bus.write_8(REG_BRDFIX, 0);
    bus.restore(snap);
    assert_eq!(bus.pending_m1_rom, None);
}

#[test]
fn a_swap_to_a_rom_that_is_not_loaded_is_none() {
    let mut bus = make_bus();
    for code in [1, 2] {
        let mut snap = bus.snapshot();
        snap.pending_m1_swap = code;
        bus.restore(snap);
        assert_eq!(bus.pending_m1_rom, None);
    }
    bus.roms.m1_rom = vec![2; 16];
    let mut snap = bus.snapshot();
    snap.pending_m1_swap = 1;
    bus.restore(snap);
    assert_eq!(bus.pending_m1_rom, None);
    let mut snap = bus.snapshot();
    snap.pending_m1_swap = 2;
    bus.restore(snap);
    assert_eq!(bus.pending_m1_rom, Some(vec![2; 16]));
}
