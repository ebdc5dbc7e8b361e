use emufight::neogeo::lspc::Lspc;

#[test]
fn vram_write_then_read_word() {
    let mut lspc = Lspc::new();
    lspc.vram_addr = 0x0010;
    lspc.vram_mod = 1;
    lspc.vram_write_word(0xBEEF);
    // The bus applies the auto-increment, not the write itself.
    lspc.vram_addr = 0x0010;
    assert_eq!(lspc.vram_read_word(), 0xBEEF);
}

#[test]
fn vram_write_auto_increments_by_mod() {
    let mut lspc = Lspc::new();
    lspc.vram_mod = 4;
    assert_eq!(lspc.vram_mod, 4, "vram_mod should persist as set");
}

#[test]
fn fast_vram_address_range() {
    // Addresses $8000+ go to the fast (SCB2-4) region.
    let mut lspc = Lspc::new();
    lspc.vram_addr = 0x8000;
    lspc.vram_mod = 1;
    lspc.vram_write_word(0xCAFE);
    lspc.vram_addr = 0x8000;
    assert_eq!(lspc.vram_read_word(), 0xCAFE);
}

#[test]
fn raise_and_ack_vblank_irq() {
    let mut lspc = Lspc::new();
    // No IRQ initially.
    assert_eq!(lspc.irq_level(), 0);
    // Raise V-blank (bit 2 = level 1 on NeoGeo).
    lspc.raise_irq(0x04);
    assert!(lspc.irq_level() > 0, "V-blank should assert an IRQ");
    // Acknowledge clears the pending bit.
    lspc.irq_ack(0x04);
    assert_eq!(lspc.irq_level(), 0, "IRQ should clear after ack");
}

#[test]
fn timer_fires_irq_after_reload_ticks() {
    let mut lspc = Lspc::new();
    lspc.timer_reload = 200; // fire after 200 M68k/2 ticks
    lspc.timer_counter = 200;
    lspc.timer_active = true;
    lspc.irq_control = 0x10; // bit 4: enable raster timer IRQ

    // Advance exactly enough cycles.
    lspc.tick(400); // 400 M68k cycles -> 200 ticks (divides by 2)
    assert!(lspc.pending_irq & 0x02 != 0, "timer IRQ (bit 1) should be set after reload ticks");
}

#[test]
fn pal_write_stores_byte() {
    let mut lspc = Lspc::new();
    lspc.pal_write(0, 0xAB);
    assert_eq!(lspc.pal_ram[0], 0xAB);
}

#[test]
fn palette_offsets_are_flat() {
    let mut lspc = Lspc::new();
    lspc.pal_write(5, 1);
    lspc.pal_write(0x2005, 2);
    lspc.pal_write(0x4000, 3);
    assert_eq!((lspc.pal_read(5), lspc.pal_read(0x2005), lspc.pal_read(0x4000)), (1, 2, 0));
}

#[test]
fn timer_below_reload_stays_quiet() {
    let mut lspc = Lspc::new();
    lspc.timer_reload = 200;
    lspc.timer_counter = 200;
    lspc.timer_active = true;
    lspc.irq_control = 0x10;
    lspc.tick(399);
    assert_eq!(lspc.pending_irq & 0x02, 0);
    lspc.tick(1);
    assert_eq!(lspc.pending_irq & 0x02, 0x02);
}

#[test]
fn animation_frame_advances_with_vblanks() {
    let mut lspc = Lspc::new();
    lspc.auto_anim_speed = 1;
    let start = lspc.auto_anim_frame;
    lspc.tick_vbl();
    assert_eq!(lspc.auto_anim_frame, start);
    lspc.tick_vbl();
    assert_eq!(lspc.auto_anim_frame, (start + 1) & 7);
}

#[test]
fn a_cloned_controller_is_equal() {
    let mut lspc = Lspc::new();
    lspc.vram_addr = 0x1234;
    lspc.vram_write_word(0x5678);
    let c = lspc.clone();
    assert_eq!(c.vram_read_word(), 0x5678);
    assert_eq!(c.vram, lspc.vram);
}
