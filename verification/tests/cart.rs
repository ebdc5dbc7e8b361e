use emufight::neogeo::cart::{
    byteswap_p_rom_if_needed, cart_for, decrypt_68k_kof98, Cartridge,
};

/// The KOF '98 permutation as a chain of address exclusive-ors.
fn fbneo_decrypt(p_rom: &mut Vec<u8>) {
    if p_rom.len() < 0x200000 { return; }
    let mut tmp = vec![0u8; 0x200000];
    for i in 0..0x100000usize {
        let mut j = i;
        if (i & 0x0000fc) == 0x000000 { j ^= 0x000100; }
        if (i & 0x0c0000) != 0x080000 { j ^= 0x000100; }
        if (i & 0x0c0008) == 0x080008 { j ^= 0x000100; }
        if (i & 0x0c00fe) == 0x080000 { j ^= 0x000100; }
        if (i & 0x0c0002) == 0x080002 { j ^= 0x000100; }
        if (i & 0x100000) == 0x100000 { j ^= 0x000102; }
        if (i & 0x000002) == 0x000002 { j ^= 0x100002; }
        if (i & 0x000008) == 0x000008 { j ^= 0x100002; }
        tmp[i] = p_rom[j];
    }
    p_rom[0x800..0x200000].copy_from_slice(&tmp[0x800..0x200000]);
    if p_rom.len() > 0x200000 {
        p_rom.copy_within(0x200000.., 0x100000);
        p_rom.truncate(0x100000 + (p_rom.len() - 0x200000));
    }
}

/// An image in which every byte differs from its neighbours.
fn image(len: usize) -> Vec<u8> {
    let mut x = 0x1234_5678u32;
    (0..len)
        .map(|_| {
            x = x.wrapping_mul(1_664_525).wrapping_add(1_013_904_223);
            (x >> 24) as u8
        })
        .collect()
}

#[test]
fn kof98_decrypt_matches_fbneo() {
    let raw = image(0x600000);
    let mut ours = raw.clone();
    decrypt_68k_kof98(&mut ours);
    let mut fbn = raw.clone();
    fbneo_decrypt(&mut fbn);
    assert_eq!(ours.len(), fbn.len(), "decrypt output length mismatch");
    let differ = (0..ours.len()).filter(|&i| ours[i] != fbn[i]).count();
    assert_eq!(differ, 0, "ours vs fbn differ in {} bytes", differ);
}

#[test]
fn kof98_decrypt_leaves_short_images() {
    let raw = image(0x1FFFFF);
    let mut ours = raw.clone();
    decrypt_68k_kof98(&mut ours);
    assert_eq!(ours, raw);
}

#[test]
fn kof98_chip_forges_the_signature() {
    let mut cart = cart_for("kof98");
    assert_eq!(cart.handler.intercept_read_8(0x100), None);
    assert!(!cart.handler.on_write_16(0x20AAAA, 0x0001) || cart.handler.intercept_read_8(0x100).is_none());
    cart.handler.on_write_16(0x20AAAA, 0x00F0);
    assert_eq!(cart.handler.intercept_read_8(0x100), Some(0x4E));
    assert_eq!(cart.handler.intercept_read_8(0x101), Some(0x45));
    let saved = cart.handler.snapshot();
    assert_eq!(saved.len(), 7);
    let mut other = cart_for("kof98");
    other.handler.restore(&saved);
    assert_eq!(other.handler.intercept_read_8(0x102), Some(0x4F));
}

#[test]
fn swapped_program_roms_are_put_right() {
    // The initial stack pointer, $0010F300, tells which way round an image is.
    let mut plain = vec![0u8; 0x200];
    plain[..4].copy_from_slice(&[0x00, 0x10, 0xF3, 0x00]);
    plain[0x100..0x107].copy_from_slice(b"NEO-GEO");
    let mut swapped = plain.clone();
    for i in (0..0x200).step_by(2) {
        swapped.swap(i, i + 1);
    }
    let mut fixed = swapped.clone();
    byteswap_p_rom_if_needed(&mut fixed);
    assert_eq!(fixed, plain);
    byteswap_p_rom_if_needed(&mut fixed);
    assert_eq!(fixed, plain);
}

#[test]
fn unlisted_games_have_no_chip() {
    let mut cart = cart_for("mslug");
    assert!(!cart.handler.on_write_16(0x20AAAA, 0x00F0));
    assert_eq!(cart.handler.intercept_read_8(0x100), None);
    assert_eq!(cart.handler.snapshot(), Vec::<u8>::new());
}

#[test]
fn sma_and_pvc_chips_keep_their_state() {
    for name in ["kof99", "kof2000", "kof2001", "mslug4"] {
        let cart = cart_for(name);
        assert_eq!(cart.handler.snapshot().len(), 4, "{name}");
    }
    for name in ["svc", "kof2003", "ms5", "mslug5"] {
        let mut cart = cart_for(name);
        let saved = cart.handler.snapshot();
        assert_eq!(saved.len(), 8 + 0x2000, "{name}");
        assert_eq!(&saved[..8], &0x2000u64.to_le_bytes());
        let mut changed = saved.clone();
        changed[8] = 0x77;
        cart.handler.restore(&changed);
        assert_eq!(cart.handler.snapshot(), changed);
        // A short snapshot is not taken.
        cart.handler.restore(&changed[..7]);
        assert_eq!(cart.handler.snapshot(), changed);
    }
}

#[test]
fn game_cartridges_forge_and_hold_no_boot_state() {
    let mut slot = cart_for("kof98");
    assert!(slot.handler.initial_match_state().is_none());
    assert!(slot.handler.on_write_16(0x20AAAA, 0x00F0));
    for base in [0x100, 0x400] {
        let forged: Vec<Option<u8>> = (0..4).map(|k| slot.handler.intercept_read_8(base + k)).collect();
        assert_eq!(forged, [Some(0x4E), Some(0x45), Some(0x4F), Some(0x2D)]);
    }
    assert_eq!(slot.handler.intercept_read_8(0x104), None);

    let mut plain = cart_for("unlisted");
    assert!(plain.handler.initial_match_state().is_none());
    assert!(!plain.handler.on_write_16(0x20AAAA, 0x00F0));
    assert_eq!(plain.handler.intercept_read_8(0x100), None);
}

#[test]
fn every_chip_restores_its_snapshot() {
    for game in ["kof98", "kof99", "svc", "unlisted"] {
        let mut slot = cart_for(game);
        slot.handler.on_write_16(0x20AAAA, 0x0090);
        slot.handler.on_write_16(0x2FE010, 0xBEEF);
        let saved = slot.handler.snapshot();
        let mut other = cart_for(game);
        other.handler.on_write_16(0x2FE010, 0x1234);
        other.handler.restore(&saved);
        assert_eq!(other.handler.snapshot(), saved, "{game}");
    }
}
