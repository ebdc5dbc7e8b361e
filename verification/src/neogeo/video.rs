//! NeoGeo video pipeline: sprites and fix tiles into a 304x224 RGB24 framebuffer.
//!
//! Layers, back to front: the backdrop colour, up to 381 chained and zoomed sprites from
//! the C-ROM, and the 8x8 tiles of the fix map.

use crate::bits::low_bits_are_remainders;
use crate::neogeo::bus::VideoSnapshot;
use crate::raster::{bit_at, pixels, Rgb};
use vstd::prelude::*;

verus! {

/// Active display width; the outer 8 pixels on each side of the raster are overscan.
pub const SCREEN_W: usize = 304;
pub const SCREEN_H: usize = 224;

/// Pixels on the screen.
pub const SCREEN_PIXELS: usize = 68096;

/// Size of the RGB24 framebuffer in bytes.
pub const FRAMEBUFFER_BYTES: usize = 204288;

/// Sprites that the controller walks through.
pub const SPRITE_COUNT: usize = 381;

// ── Model ────────────────────────────────────────────────────────────────────

/// What a [`VideoSnapshot`] shows.
pub struct VideoView {
    pub vram: Seq<u8>,
    pub pal_ram: Seq<u8>,
    pub sfix_rom: Seq<u8>,
    pub s_rom: Seq<u8>,
    pub c_rom: Seq<u8>,
    pub pal_bank: bool,
    pub brd_fix: bool,
    pub auto_anim_frame: u8,
    pub lo_rom: Seq<u8>,
    pub shadow: bool,
}

impl<'a> View for VideoSnapshot<'a> {
    type V = VideoView;

    open spec fn view(&self) -> VideoView {
        VideoView {
            vram: self.vram@,
            pal_ram: self.pal_ram@,
            sfix_rom: self.sfix_rom@,
            s_rom: self.s_rom@,
            c_rom: self.c_rom@,
            pal_bank: self.pal_bank,
            brd_fix: self.brd_fix,
            auto_anim_frame: self.auto_anim_frame,
            lo_rom: self.lo_rom@,
            shadow: self.shadow,
        }
    }
}

/// A big-endian word of VRAM.
pub open spec fn word(vram: Seq<u8>, off: int) -> int {
    vram[off] * 256 + vram[off + 1]
}

/// One 5-bit channel expanded to 8 bits, dimmed by the dark bit and by shadow mode.
pub open spec fn channel(five: u16, dark: bool, shadow: bool) -> u8 {
    let full = ((five << 3) | (five >> 2)) as u8;
    let fine = if dark { (full as u16 * 251 / 255) as u8 } else { full };
    if shadow { (fine as u16 * 142 / 255) as u8 } else { fine }
}

/// The colour of a 16-bit palette entry: bit 15 dark, bits 14-12 the low bits of red,
/// green and blue, then four high bits of each.
pub open spec fn entry_color(e: u16, shadow: bool) -> Rgb {
    let dark = e & 0x8000 != 0;
    (
        channel((((e >> 8) & 0xF) << 1) | ((e >> 14) & 1), dark, shadow),
        channel((((e >> 4) & 0xF) << 1) | ((e >> 13) & 1), dark, shadow),
        channel(((e & 0xF) << 1) | ((e >> 12) & 1), dark, shadow),
    )
}

/// The colour at an index of a palette in the active bank.
pub open spec fn color_of(pal_ram: Seq<u8>, bank: bool, pal_idx: int, color_idx: int, shadow: bool) -> Rgb {
    let offset = (if bank { 0x2000int } else { 0int }) + (pal_idx * 16 + color_idx) * 2;
    if offset + 1 >= 0x4000 {
        (0, 0, 0)
    } else {
        entry_color(((pal_ram[offset] as u16) << 8) | (pal_ram[offset + 1] as u16), shadow)
    }
}

/// Colour index of a pixel of a fix tile.  A tile is four strips of eight bytes (pixels
/// 4-5, 6-7, 0-1, 2-3), one byte per row, the left pixel in the low nibble.
pub open spec fn fix_index(rom: Seq<u8>, tile: int, tx: int, ty: int) -> int {
    let strip = if tx < 2 { 16int } else if tx < 4 { 24int } else if tx < 6 { 0int } else { 8int };
    let byte = rom[tile * 32 + strip + ty];
    if tx % 2 == 0 { (byte % 16) as int } else { (byte / 16) as int }
}

/// What a fix tile shows at one of its pixels; colour 0 is transparent and a tile beyond
/// the ROM shows nothing.
pub open spec fn fix_tile_color(v: VideoView, rom: Seq<u8>, tile: int, pal: int, tx: int, ty: int) -> Option<Rgb> {
    if tile * 32 + 31 >= rom.len() || fix_index(rom, tile, tx, ty) == 0 {
        None
    } else {
        Some(color_of(v.pal_ram, v.pal_bank, pal, fix_index(rom, tile, tx, ty), v.shadow))
    }
}

/// Tile source of the fix layer: the system's while it is selected or the cartridge has
/// none.
pub open spec fn fix_rom_of(v: VideoView) -> Seq<u8> {
    if v.brd_fix || v.s_rom.len() == 0 { v.sfix_rom } else { v.s_rom }
}

/// VRAM byte offset of the fix-map cell of a screen tile; the map's first column and its
/// first two rows are overscan.
pub open spec fn fix_cell_offset(col: int, row: int) -> int {
    (0x7000 + (col + 1) * 0x20 + row + 2) * 2
}

/// What the fix layer shows at a pixel.
pub open spec fn fix_color(v: VideoView, x: int, y: int) -> Option<Rgb> {
    let off = fix_cell_offset(x / 8, y / 8);
    let cell = word(v.vram, off);
    if off + 1 >= v.vram.len() {
        None
    } else {
        fix_tile_color(v, fix_rom_of(v), cell % 4096, cell / 4096, x % 8, y % 8)
    }
}

/// Placement of a sprite, and what the next one of a chain takes over.
pub struct Chain {
    /// Raw X position (0-511).
    pub x: int,
    /// Drawn width (1-16).
    pub w: int,
    /// Top line.
    pub y: int,
    /// Height in tiles (0-32).
    pub rows: int,
    /// Height in lines after vertical shrinking.
    pub lines: int,
    /// Vertical shrink coefficient (0-255).
    pub vshrink: int,
}

/// Before the first sprite.
pub open spec fn chain_start() -> Chain {
    Chain { x: 0, w: 16, y: 0, rows: 0, lines: 0, vshrink: 255 }
}

/// VRAM reaches the control words of sprite `s`.
pub open spec fn sprite_present(vram: Seq<u8>, s: int) -> bool {
    0x10800 + 2 * s + 1 < vram.len()
}

/// Placement of sprite `s` after `c`: a sticky sprite stands to the right of the one
/// before and shares its top, height and vertical shrink; any other has its own.
pub open spec fn chain_step(vram: Seq<u8>, c: Chain, s: int) -> Chain {
    let scb2 = word(vram, 0x10000 + 2 * s);
    let scb3 = word(vram, 0x10400 + 2 * s);
    let scb4 = word(vram, 0x10800 + 2 * s);
    let w = (scb2 / 256) % 16 + 1;
    let vshrink = scb2 % 256;
    let height = scb3 % 64;
    let rows = if height < 32 { height } else { 32 };
    if !sprite_present(vram, s) {
        c
    } else if (scb3 / 64) % 2 == 1 {
        Chain { x: (c.x + c.w) % 512, w, ..c }
    } else {
        Chain {
            x: scb4 / 128,
            w,
            y: 0x1F0 - scb3 / 128,
            rows,
            lines: ((vshrink + 1) * rows * 16) / 256,
            vshrink,
        }
    }
}

/// Placement after the first `n` sprites; that of sprite `n - 1`.
pub open spec fn chain_after(vram: Seq<u8>, n: int) -> Chain
    decreases n,
{
    if n <= 0 { chain_start() } else { chain_step(vram, chain_after(vram, n - 1), n - 1) }
}

/// Left screen column of a raw X position: shifted by the overscan, with the last 32
/// positions wrapping to the left of the screen.
pub open spec fn screen_x(raw: int) -> int {
    let adj = (raw - 8) % 512;
    if adj >= 0x1E0 { adj - 0x200 } else { adj }
}

/// Line of a sprite that falls on a screen row; lines wrap at 512.
pub open spec fn sprite_line(c: Chain, y: int) -> int {
    (y - c.y) % 512
}

/// Lines that a sprite covers: with the zoom table every source line, without it the
/// shrunk height.
pub open spec fn sprite_height(c: Chain, lo_rom: Seq<u8>) -> int {
    if lo_rom.len() == 0 { c.lines } else { c.rows * 16 }
}

/// Source line (tile and row within it, as `16 * tile + row`) of a sprite's line.
pub open spec fn source_line(c: Chain, lo_rom: Seq<u8>, line: int) -> int {
    if lo_rom.len() == 0 {
        (line * (c.rows * 16)) / c.lines
    } else {
        let idx = c.vshrink * 256 + line;
        if idx < lo_rom.len() { lo_rom[idx] as int } else { 0 }
    }
}

/// Tile code with the auto-animation frame in its low bits, where enabled.
pub open spec fn animated_tile(w0: int, w1: int, frame: u8) -> int {
    let code = ((w1 / 16) % 16) * 65536 + w0;
    if (w1 / 8) % 2 == 1 {
        code - code % 8 + frame % 8
    } else if (w1 / 4) % 2 == 1 {
        code - code % 4 + frame % 4
    } else {
        code
    }
}

/// Colour index of a pixel of a C-ROM tile: 128 bytes, the right half first, four
/// bit-plane bytes per row in the order 0, 2, 1, 3, the leftmost pixel in bit 0.
pub open spec fn tile_index(c_rom: Seq<u8>, tile: int, tx: int, ty: int) -> int {
    let base = tile * 128 + (if tx < 8 { 64int } else { 0int }) + ty * 4;
    let k = tx % 8;
    bit_at(c_rom[base + 3], k) * 8 + bit_at(c_rom[base + 1], k) * 4 + bit_at(c_rom[base + 2], k) * 2
        + bit_at(c_rom[base], k)
}

/// Colour index that a shrunk and possibly flipped tile shows in column `dx` of `w`.
pub open spec fn shrunk_index(c_rom: Seq<u8>, tile: int, dx: int, w: int, row: int, hflip: bool, vflip: bool) -> int {
    let src = (dx * 16) / w;
    tile_index(c_rom, tile, if hflip { 15 - src } else { src }, if vflip { 15 - row } else { row })
}

/// What one line of a sprite tile shows in column `dx` of `w`.
#[verifier::opaque]
pub open spec fn scan_color(v: VideoView, tile: int, pal: int, dx: int, w: int, row: int, hflip: bool, vflip: bool) -> Option<Rgb> {
    let idx = shrunk_index(v.c_rom, tile, dx, w, row, hflip, vflip);
    if tile * 128 + 127 >= v.c_rom.len() || idx == 0 {
        None
    } else {
        Some(color_of(v.pal_ram, v.pal_bank, pal, idx, v.shadow))
    }
}

/// What line `line` of sprite `s` shows at screen column `x`.
#[verifier::opaque]
pub open spec fn line_color(v: VideoView, s: int, c: Chain, line: int, x: int) -> Option<Rgb> {
    let src = source_line(c, v.lo_rom, line);
    let w0 = word(v.vram, (s * 64 + (src / 16) * 2) * 2);
    let w1 = word(v.vram, (s * 64 + (src / 16) * 2) * 2 + 2);
    let dx = x - screen_x(c.x);
    if src / 16 >= c.rows || dx < 0 || dx >= c.w {
        None
    } else {
        scan_color(
            v,
            animated_tile(w0, w1, v.auto_anim_frame),
            w1 / 256,
            dx,
            c.w,
            src % 16,
            w1 % 2 == 1,
            (w1 / 2) % 2 == 1,
        )
    }
}

/// What sprite `s` shows at a pixel.
pub open spec fn sprite_color(v: VideoView, s: int, x: int, y: int) -> Option<Rgb> {
    let c = chain_after(v.vram, s + 1);
    if !sprite_present(v.vram, s) || c.rows == 0 || c.lines == 0 || sprite_line(c, y)
        >= sprite_height(c, v.lo_rom) {
        None
    } else {
        line_color(v, s, c, sprite_line(c, y), x)
    }
}

/// A colour laid over another, where it shows at all.
pub open spec fn over(top: Option<Rgb>, under: Rgb) -> Rgb {
    match top {
        Some(c) => c,
        None => under,
    }
}

/// The pixel after the first `n` sprites: later sprites cover earlier ones.
pub open spec fn sprites_over(v: VideoView, n: int, x: int, y: int, under: Rgb) -> Rgb
    decreases n,
{
    if n <= 0 {
        under
    } else {
        over(sprite_color(v, n - 1, x, y), sprites_over(v, n - 1, x, y, under))
    }
}

/// The backdrop: the last colour of the last palette.
pub open spec fn backdrop(v: VideoView) -> Rgb {
    color_of(v.pal_ram, v.pal_bank, 255, 15, v.shadow)
}

/// The finished picture at a pixel: the fix layer over the sprites over the backdrop.
pub open spec fn frame_pixel(v: VideoView, x: int, y: int) -> Rgb {
    over(fix_color(v, x, y), sprites_over(v, SPRITE_COUNT as int, x, y, backdrop(v)))
}

/// The finished picture, row by row.
pub open spec fn frame(v: VideoView) -> Seq<Rgb> {
    Seq::new(SCREEN_PIXELS as nat, |p: int| frame_pixel(v, p % 304, p / 304))
}

// ── Rasteriser ───────────────────────────────────────────────────────────────

fn put_pixel(fb: &mut [u8], p: usize, c: Rgb)
    requires
        old(fb)@.len() == FRAMEBUFFER_BYTES,
        p < SCREEN_PIXELS,
    ensures
        final(fb)@.len() == FRAMEBUFFER_BYTES,
        pixels(final(fb)@) == pixels(old(fb)@).update(p as int, c),
{
    let i: usize = p * 3;
    fb[i] = c.0;
    fb[i + 1] = c.1;
    fb[i + 2] = c.2;
    assert(pixels(fb@) =~= pixels(old(fb)@).update(p as int, c));
}

fn word_at(vram: &[u8], off: usize) -> (r: u32)
    requires
        off + 1 < vram@.len(),
    ensures
        r == word(vram@, off as int),
        r < 65536,
{
    (vram[off] as u32) * 256 + (vram[off + 1] as u32)
}

fn channel_of(five: u16, dark: bool, shadow: bool) -> (r: u8)
    ensures
        r == channel(five, dark, shadow),
{
    let full: u8 = ((five << 3) | (five >> 2)) as u8;
    let fine: u8 = if dark { (full as u16 * 251 / 255) as u8 } else { full };
    if shadow { (fine as u16 * 142 / 255) as u8 } else { fine }
}

/// Decode one palette entry to RGB24.
pub fn palette_color(
    pal_ram: &[u8],
    pal_bank: bool,
    pal_idx: usize,
    color_idx: usize,
    shadow: bool,
) -> (r: Rgb)
    requires
        pal_ram@.len() >= 0x4000,
        pal_idx <= 255,
        color_idx <= 15,
    ensures
        r == color_of(pal_ram@, pal_bank, pal_idx as int, color_idx as int, shadow),
{
    let bank_base: usize = if pal_bank { 0x2000 } else { 0 };
    let offset: usize = bank_base + (pal_idx * 16 + color_idx) * 2;
    let e: u16 = ((pal_ram[offset] as u16) << 8) | (pal_ram[offset + 1] as u16);
    let dark = (e & 0x8000) != 0;
    let r5: u16 = (((e >> 8) & 0xF) << 1) | ((e >> 14) & 1);
    let g5: u16 = (((e >> 4) & 0xF) << 1) | ((e >> 13) & 1);
    let b5: u16 = ((e & 0xF) << 1) | ((e >> 12) & 1);
    (channel_of(r5, dark, shadow), channel_of(g5, dark, shadow), channel_of(b5, dark, shadow))
}

/// Screen column of a pixel.
pub open spec fn px(p: int) -> int {
    p % 304
}

/// Screen row of a pixel.
pub open spec fn py(p: int) -> int {
    p / 304
}

/// The pixel at a column and row.
proof fn pixel_number(x: int, y: int)
    requires
        0 <= x < 304,
        0 <= y < 224,
    ensures
        0 <= y * 304 + x < SCREEN_PIXELS,
        px(y * 304 + x) == x,
        py(y * 304 + x) == y,
{
}

/// Rasterise one 8x8 fix tile at screen position (`sx`, `sy`).
pub fn draw_fix_tile(
    framebuffer: &mut [u8],
    rom: &[u8],
    snap: &VideoSnapshot<'_>,
    tile_num: usize,
    pal_idx: usize,
    sx: usize,
    sy: usize,
)
    requires
        old(framebuffer)@.len() == FRAMEBUFFER_BYTES,
        snap.pal_ram@.len() >= 0x4000,
        tile_num < 4096,
        pal_idx < 16,
        sx <= 304,
        sy <= 216,
    ensures
        final(framebuffer)@.len() == FRAMEBUFFER_BYTES,
        forall|p: int|
            0 <= p < SCREEN_PIXELS ==> #[trigger] pixels(final(framebuffer)@)[p] == (if sx <= px(p)
                < sx + 8 && sy <= py(p) < sy + 8 {
                over(
                    fix_tile_color(
                        snap@,
                        rom@,
                        tile_num as int,
                        pal_idx as int,
                        px(p) - sx,
                        py(p) - sy,
                    ),
                    pixels(old(framebuffer)@)[p],
                )
            } else {
                pixels(old(framebuffer)@)[p]
            }),
{
    let tile_base: usize = tile_num * 32;
    if tile_base + 31 >= rom.len() {
        return;
    }
    let ghost before = pixels(framebuffer@);
    let mut ty: usize = 0;
    while ty < 8
        invariant
            framebuffer@.len() == FRAMEBUFFER_BYTES,
            snap.pal_ram@.len() >= 0x4000,
            tile_base == tile_num * 32,
            tile_base + 31 < rom@.len(),
            tile_num < 4096,
            pal_idx < 16,
            sx <= 304,
            sy <= 216,
            ty <= 8,
            before == pixels(old(framebuffer)@),
            forall|p: int|
                0 <= p < SCREEN_PIXELS ==> #[trigger] pixels(framebuffer@)[p] == (if sx <= px(p) < sx
                    + 8 && sy <= py(p) < sy + ty {
                    over(
                        fix_tile_color(
                            snap@,
                            rom@,
                            tile_num as int,
                            pal_idx as int,
                            px(p) - sx,
                            py(p) - sy,
                        ),
                        before[p],
                    )
                } else {
                    before[p]
                }),
        decreases 8 - ty,
    {
        let y: usize = sy + ty;
        let mut tx: usize = 0;
        while tx < 8
            invariant
                framebuffer@.len() == FRAMEBUFFER_BYTES,
                snap.pal_ram@.len() >= 0x4000,
                tile_base == tile_num * 32,
                tile_base + 31 < rom@.len(),
                tile_num < 4096,
                pal_idx < 16,
                sx <= 304,
                sy <= 216,
                ty < 8,
                tx <= 8,
                y == sy + ty,
                forall|p: int|
                    0 <= p < SCREEN_PIXELS ==> #[trigger] pixels(framebuffer@)[p] == (if sx <= px(p)
                        < sx + 8 && sy <= py(p) && (py(p) < y || (py(p) == y && px(p) < sx + tx)) {
                        over(
                            fix_tile_color(
                                snap@,
                                rom@,
                                tile_num as int,
                                pal_idx as int,
                                px(p) - sx,
                                py(p) - sy,
                            ),
                            before[p],
                        )
                    } else {
                        before[p]
                    }),
            decreases 8 - tx,
        {
            let strip_off: usize = if tx < 2 { 16 } else if tx < 4 { 24 } else if tx < 6 { 0 } else { 8 };
            let byte: u8 = rom[tile_base + strip_off + ty];
            let color_idx: usize = if tx % 2 == 0 { (byte % 16) as usize } else { (byte / 16) as usize };
            let x: usize = sx + tx;
            if color_idx != 0 && x < SCREEN_W {
                let c = palette_color(snap.pal_ram, snap.pal_bank, pal_idx, color_idx, snap.shadow);
                proof {
                    pixel_number(x as int, y as int);
                }
                put_pixel(framebuffer, y * SCREEN_W + x, c);
            }
            tx = tx + 1;
        }
        ty = ty + 1;
    }
}

/// A column of a shrunk tile stays within the tile.
proof fn shrink_stays_inside(dx: int, w: int)
    requires
        0 <= dx < w,
        w <= 16,
    ensures
        0 <= (dx * 16) / w < 16,
{
    assert((dx * 16) / w < 16) by (nonlinear_arith)
        requires
            0 <= dx < w,
    ;
    assert(0 <= (dx * 16) / w) by (nonlinear_arith)
        requires
            0 <= dx < w,
    ;
}

/// Rasterise one line of a (possibly shrunk) sprite tile.
pub fn draw_sprite_scanline(
    framebuffer: &mut [u8],
    snap: &VideoSnapshot<'_>,
    tile_code: usize,
    pal_idx: usize,
    sx: i32,
    sy: i32,
    y_in_tile: usize,
    dest_w: i32,
    hflip: bool,
    vflip: bool,
)
    requires
        old(framebuffer)@.len() == FRAMEBUFFER_BYTES,
        snap.pal_ram@.len() >= 0x4000,
        tile_code < 0x100000,
        pal_idx <= 255,
        -512 <= sx <= 512,
        0 <= sy < SCREEN_H,
        y_in_tile < 16,
        1 <= dest_w <= 16,
    ensures
        final(framebuffer)@.len() == FRAMEBUFFER_BYTES,
        forall|p: int|
            0 <= p < SCREEN_PIXELS ==> #[trigger] pixels(final(framebuffer)@)[p] == (if py(p) == sy && sx
                <= px(p) < sx + dest_w {
                over(
                    scan_color(
                        snap@,
                        tile_code as int,
                        pal_idx as int,
                        px(p) - sx,
                        dest_w as int,
                        y_in_tile as int,
                        hflip,
                        vflip,
                    ),
                    pixels(old(framebuffer)@)[p],
                )
            } else {
                pixels(old(framebuffer)@)[p]
            }),
{
    reveal(scan_color);
    let tile_base: usize = tile_code * 128;
    if tile_base + 127 >= snap.c_rom.len() {
        return;
    }
    let ty: usize = if vflip { 15 - y_in_tile } else { y_in_tile };
    let ghost before = pixels(framebuffer@);
    let mut dx: i32 = 0;
    while dx < dest_w
        invariant
            framebuffer@.len() == FRAMEBUFFER_BYTES,
            snap.pal_ram@.len() >= 0x4000,
            tile_base == tile_code * 128,
            tile_base + 127 < snap.c_rom@.len(),
            tile_code < 0x100000,
            pal_idx <= 255,
            -512 <= sx <= 512,
            0 <= sy < SCREEN_H,
            y_in_tile < 16,
            ty == (if vflip { 15 - y_in_tile } else { y_in_tile as int }),
            1 <= dest_w <= 16,
            0 <= dx <= dest_w,
            forall|p: int|
                0 <= p < SCREEN_PIXELS ==> #[trigger] pixels(framebuffer@)[p] == (if py(p) == sy && sx
                    <= px(p) < sx + dx {
                    over(
                        scan_color(
                            snap@,
                            tile_code as int,
                            pal_idx as int,
                            px(p) - sx,
                            dest_w as int,
                            y_in_tile as int,
                            hflip,
                            vflip,
                        ),
                        before[p],
                    )
                } else {
                    before[p]
                }),
        decreases dest_w - dx,
    {
        proof {
            reveal(scan_color);
        }
        let x: i32 = sx + dx;
        if 0 <= x && x < SCREEN_W as i32 {
            proof {
                shrink_stays_inside(dx as int, dest_w as int);
                low_bits_are_remainders();
            }
            let src_x: usize = ((dx * 16) / dest_w) as usize;
            let tx: usize = if hflip { 15 - src_x } else { src_x };
            let bit: u8 = (tx % 8) as u8;
            let base: usize = tile_base + (if tx < 8 { 64 } else { 0 }) + ty * 4;
            let p0: u8 = (snap.c_rom[base] >> bit) & 1;
            let p2: u8 = (snap.c_rom[base + 1] >> bit) & 1;
            let p1: u8 = (snap.c_rom[base + 2] >> bit) & 1;
            let p3: u8 = (snap.c_rom[base + 3] >> bit) & 1;
            let color_idx: usize = (p3 * 8 + p2 * 4 + p1 * 2 + p0) as usize;
            assert(color_idx == shrunk_index(
                snap@.c_rom,
                tile_code as int,
                dx as int,
                dest_w as int,
                y_in_tile as int,
                hflip,
                vflip,
            ));
            if color_idx != 0 {
                let c = palette_color(snap.pal_ram, snap.pal_bank, pal_idx, color_idx, snap.shadow);
                proof {
                    pixel_number(x as int, sy as int);
                }
                put_pixel(framebuffer, sy as usize * SCREEN_W + x as usize, c);
            }
        }
        dx = dx + 1;
    }
}


/// A shrunk height is at most the full one.
proof fn shrunk_lines_bound(vshrink: int, rows: int)
    requires
        0 <= vshrink <= 255,
        0 <= rows <= 32,
    ensures
        0 <= (vshrink + 1) * rows * 16 <= 131072,
        0 <= ((vshrink + 1) * rows * 16) / 256 <= 512,
{
    assert(0 <= (vshrink + 1) * rows <= 8192) by (nonlinear_arith)
        requires
            0 <= vshrink <= 255,
            0 <= rows <= 32,
    ;
}

/// A placement is within the hardware's ranges.
pub open spec fn chain_in_range(c: Chain) -> bool {
    &&& 0 <= c.x < 512
    &&& 1 <= c.w <= 16
    &&& -15 <= c.y <= 0x1F0
    &&& 0 <= c.rows <= 32
    &&& 0 <= c.lines <= 512
    &&& 0 <= c.vshrink <= 255
}

fn source_line_of(
    snap: &VideoSnapshot<'_>,
    rows: i32,
    lines: i32,
    vshrink: i32,
    dy: i32,
    Ghost(c): Ghost<Chain>,
) -> (r: i32)
    requires
        chain_in_range(c),
        rows == c.rows,
        lines == c.lines,
        vshrink == c.vshrink,
        lines > 0,
        0 <= dy < 512,
    ensures
        r == source_line(c, snap@.lo_rom, dy as int),
        r >= 0,
{
    if snap.lo_rom.len() > 0 {
        let lut_idx: usize = (vshrink * 256 + dy) as usize;
        if lut_idx < snap.lo_rom.len() { snap.lo_rom[lut_idx] as i32 } else { 0 }
    } else {
        let src_h: i32 = rows * 16;
        proof {
            assert(0 <= dy * src_h <= 512 * 512) by (nonlinear_arith)
                requires
                    0 <= dy <= 512,
                    0 <= src_h <= 512,
            ;
            assert((dy * src_h) / (lines as int) >= 0) by (nonlinear_arith)
                requires
                    0 <= dy * src_h,
                    lines > 0,
            ;
        }
        (dy * src_h) / lines
    }
}

fn tile_of(w0: u32, w1: u32, frame: u8) -> (r: u32)
    requires
        w0 < 65536,
        w1 < 65536,
    ensures
        r == animated_tile(w0 as int, w1 as int, frame),
        r < 0x100000,
{
    let code: u32 = ((w1 / 16) % 16) * 65536 + w0;
    let anim: u32 = frame as u32;
    if (w1 / 8) % 2 == 1 {
        code - code % 8 + anim % 8
    } else if (w1 / 4) % 2 == 1 {
        code - code % 4 + anim % 4
    } else {
        code
    }
}

/// Draw line `dy` of one placed sprite on screen row `sy`.
#[verifier::spinoff_prover]
#[verifier::rlimit(40)]
fn draw_sprite_line(
    framebuffer: &mut [u8],
    snap: &VideoSnapshot<'_>,
    s: usize,
    w: i32,
    rows: i32,
    lines: i32,
    vshrink: i32,
    sx: i32,
    sy: i32,
    dy: i32,
    Ghost(c): Ghost<Chain>,
)
    requires
        old(framebuffer)@.len() == FRAMEBUFFER_BYTES,
        snap.pal_ram@.len() >= 0x4000,
        s < SPRITE_COUNT,
        sprite_present(snap.vram@, s as int),
        chain_in_range(c),
        w == c.w,
        rows == c.rows,
        lines == c.lines,
        vshrink == c.vshrink,
        lines > 0,
        sx == screen_x(c.x),
        0 <= sy < SCREEN_H,
        0 <= dy < 512,
    ensures
        final(framebuffer)@.len() == FRAMEBUFFER_BYTES,
        forall|p: int|
            0 <= p < SCREEN_PIXELS ==> #[trigger] pixels(final(framebuffer)@)[p] == (if py(p) == sy {
                over(line_color(snap@, s as int, c, dy as int, px(p)), pixels(old(framebuffer)@)[p])
            } else {
                pixels(old(framebuffer)@)[p]
            }),
{
    reveal(line_color);
    let src: i32 = source_line_of(snap, rows, lines, vshrink, dy, Ghost(c));
    let t: i32 = src / 16;
    if t >= rows {
        return;
    }
    let b0: usize = (s * 64 + t as usize * 2) * 2;
    let w0: u32 = word_at(snap.vram, b0);
    let w1: u32 = word_at(snap.vram, b0 + 2);
    let tile: u32 = tile_of(w0, w1, snap.auto_anim_frame);
    draw_sprite_scanline(
        framebuffer,
        snap,
        tile as usize,
        (w1 / 256) as usize,
        sx,
        sy,
        (src % 16) as usize,
        w,
        w1 % 2 == 1,
        (w1 / 2) % 2 == 1,
    );
}

/// Screen row of a sprite's line.
proof fn line_row(c: Chain, y: int, dy: int, sy: int)
    requires
        chain_in_range(c),
        0 <= dy < 512,
        0 <= y < 224,
        sy == (c.y + dy) % 512,
    ensures
        sprite_line(c, y) == dy <==> y == sy,
{
}

/// Off the screen, no line of a sprite shows.
proof fn off_screen_shows_nothing(v: VideoView, s: int, c: Chain, line: int, x: int)
    requires
        0 <= x < 304,
        screen_x(c.x) >= 304 || screen_x(c.x) + c.w <= 0,
    ensures
        line_color(v, s, c, line, x) is None,
{
    reveal(line_color);
}

/// What a placed sprite shows: its line on the screen row, within its height.
proof fn placed_sprite_color(v: VideoView, s: int, c: Chain, x: int, y: int)
    requires
        c == chain_after(v.vram, s + 1),
        sprite_present(v.vram, s),
    ensures
        c.rows == 0 || c.lines == 0 ==> sprite_color(v, s, x, y) is None,
        c.rows != 0 && c.lines != 0 ==> sprite_color(v, s, x, y) == (if sprite_line(c, y)
            < sprite_height(c, v.lo_rom) {
            line_color(v, s, c, sprite_line(c, y), x)
        } else {
            None
        }),
{
}

/// Draw the first `hw_lines` lines of one placed sprite.
#[verifier::spinoff_prover]
#[verifier::rlimit(40)]
fn draw_sprite_lines(
    framebuffer: &mut [u8],
    snap: &VideoSnapshot<'_>,
    s: usize,
    w: i32,
    y_top: i32,
    rows: i32,
    lines: i32,
    vshrink: i32,
    sx: i32,
    hw_lines: i32,
    Ghost(c): Ghost<Chain>,
)
    requires
        old(framebuffer)@.len() == FRAMEBUFFER_BYTES,
        snap.pal_ram@.len() >= 0x4000,
        s < SPRITE_COUNT,
        sprite_present(snap.vram@, s as int),
        chain_in_range(c),
        w == c.w,
        y_top == c.y,
        rows == c.rows,
        lines == c.lines,
        vshrink == c.vshrink,
        lines > 0,
        sx == screen_x(c.x),
        0 <= hw_lines <= 512,
    ensures
        final(framebuffer)@.len() == FRAMEBUFFER_BYTES,
        forall|p: int|
            0 <= p < SCREEN_PIXELS ==> #[trigger] pixels(final(framebuffer)@)[p] == (if sprite_line(
                c,
                py(p),
            ) < hw_lines {
                over(
                    line_color(snap@, s as int, c, sprite_line(c, py(p)), px(p)),
                    pixels(old(framebuffer)@)[p],
                )
            } else {
                pixels(old(framebuffer)@)[p]
            }),
{
    let ghost v = snap@;
    let ghost before = pixels(framebuffer@);
    let mut dy: i32 = 0;
    while dy < hw_lines
        invariant
            framebuffer@.len() == FRAMEBUFFER_BYTES,
            snap.pal_ram@.len() >= 0x4000,
            v == snap@,
            s < SPRITE_COUNT,
            sprite_present(snap.vram@, s as int),
            chain_in_range(c),
            w == c.w,
            y_top == c.y,
            rows == c.rows,
            lines == c.lines,
            vshrink == c.vshrink,
            lines > 0,
            sx == screen_x(c.x),
            0 <= dy <= hw_lines <= 512,
            forall|p: int|
                0 <= p < SCREEN_PIXELS ==> #[trigger] pixels(framebuffer@)[p] == (if sprite_line(
                    c,
                    py(p),
                ) < dy {
                    over(line_color(v, s as int, c, sprite_line(c, py(p)), px(p)), before[p])
                } else {
                    before[p]
                }),
        decreases hw_lines - dy,
    {
        let raw: i32 = y_top + dy;
        let sy: i32 = if raw < 0 { raw + 512 } else if raw >= 512 { raw - 512 } else { raw };
        assert(sy == (c.y + dy) % 512);
        let ghost mid = pixels(framebuffer@);
        if sy < SCREEN_H as i32 {
            draw_sprite_line(
                framebuffer,
                snap,
                s,
                w,
                rows,
                lines,
                vshrink,
                sx,
                sy,
                dy,
                Ghost(c),
            );
        }
        proof {
            assert forall|p: int| 0 <= p < SCREEN_PIXELS implies #[trigger] pixels(framebuffer@)[p] == (
            if sprite_line(c, py(p)) < dy + 1 {
                over(line_color(v, s as int, c, sprite_line(c, py(p)), px(p)), before[p])
            } else {
                before[p]
            }) by {
                assert(0 <= py(p) < 224);
                line_row(c, py(p), dy as int, sy as int);
                assert(mid[p] == mid[p]);
            }
        }
        dy = dy + 1;
    }
}

/// Draw the lines of one placed sprite.
#[verifier::spinoff_prover]
fn draw_sprite(
    framebuffer: &mut [u8],
    snap: &VideoSnapshot<'_>,
    s: usize,
    x_raw: i32,
    w: i32,
    y_top: i32,
    rows: i32,
    lines: i32,
    vshrink: i32,
    Ghost(c): Ghost<Chain>,
)
    requires
        old(framebuffer)@.len() == FRAMEBUFFER_BYTES,
        snap.pal_ram@.len() >= 0x4000,
        s < SPRITE_COUNT,
        sprite_present(snap.vram@, s as int),
        chain_in_range(c),
        c == (Chain {
            x: x_raw as int,
            w: w as int,
            y: y_top as int,
            rows: rows as int,
            lines: lines as int,
            vshrink: vshrink as int,
        }),
        c == chain_after(snap.vram@, s + 1),
    ensures
        final(framebuffer)@.len() == FRAMEBUFFER_BYTES,
        forall|p: int|
            0 <= p < SCREEN_PIXELS ==> #[trigger] pixels(final(framebuffer)@)[p] == over(
                sprite_color(snap@, s as int, px(p), py(p)),
                pixels(old(framebuffer)@)[p],
            ),
{
    let ghost v = snap@;
    let ghost before = pixels(framebuffer@);
    proof {
        assert forall|p: int| 0 <= p < SCREEN_PIXELS implies #[trigger] sprite_color(
            v,
            s as int,
            px(p),
            py(p),
        ) == (if c.rows == 0 || c.lines == 0 || sprite_line(c, py(p)) >= sprite_height(c, v.lo_rom) {
            None
        } else {
            line_color(v, s as int, c, sprite_line(c, py(p)), px(p))
        }) by {
            placed_sprite_color(v, s as int, c, px(p), py(p));
        }
    }
    if rows == 0 || lines == 0 {
        return;
    }
    let shifted: i32 = if x_raw < 8 { x_raw + 504 } else { x_raw - 8 };
    let sx: i32 = if shifted >= 0x1E0 { shifted - 0x200 } else { shifted };
    assert(sx == screen_x(c.x));
    if sx >= SCREEN_W as i32 || sx + w <= 0 {
        proof {
            assert forall|p: int| 0 <= p < SCREEN_PIXELS implies #[trigger] pixels(framebuffer@)[p]
                == over(sprite_color(v, s as int, px(p), py(p)), pixels(framebuffer@)[p]) by {
                off_screen_shows_nothing(v, s as int, c, sprite_line(c, py(p)), px(p));
            }
        }
        return;
    }
    let hw_lines: i32 = if snap.lo_rom.len() > 0 { rows * 16 } else { lines };
    draw_sprite_lines(framebuffer, snap, s, w, y_top, rows, lines, vshrink, sx, hw_lines, Ghost(c));
    assert(hw_lines == sprite_height(c, v.lo_rom));
    assert forall|p: int| 0 <= p < SCREEN_PIXELS implies #[trigger] pixels(framebuffer@)[p] == over(
        sprite_color(v, s as int, px(p), py(p)),
        before[p],
    ) by {
    }
}

/// Draw the sprite layer.
pub fn draw_sprites(framebuffer: &mut [u8], snap: &VideoSnapshot<'_>)
    requires
        old(framebuffer)@.len() == FRAMEBUFFER_BYTES,
        snap.pal_ram@.len() >= 0x4000,
    ensures
        final(framebuffer)@.len() == FRAMEBUFFER_BYTES,
        forall|p: int|
            0 <= p < SCREEN_PIXELS ==> #[trigger] pixels(final(framebuffer)@)[p] == sprites_over(
                snap@,
                SPRITE_COUNT as int,
                px(p),
                py(p),
                pixels(old(framebuffer)@)[p],
            ),
{
    let mut x: i32 = 0;
    let mut w: i32 = 16;
    let mut y: i32 = 0;
    let mut rows: i32 = 0;
    let mut lines: i32 = 0;
    let mut vshrink: i32 = 255;
    let ghost before = pixels(framebuffer@);
    let mut s: usize = 0;
    while s < SPRITE_COUNT
        invariant
            framebuffer@.len() == FRAMEBUFFER_BYTES,
            snap.pal_ram@.len() >= 0x4000,
            s <= SPRITE_COUNT,
            chain_after(snap.vram@, s as int) == (Chain {
                x: x as int,
                w: w as int,
                y: y as int,
                rows: rows as int,
                lines: lines as int,
                vshrink: vshrink as int,
            }),
            chain_in_range(chain_after(snap.vram@, s as int)),
            forall|p: int|
                0 <= p < SCREEN_PIXELS ==> #[trigger] pixels(framebuffer@)[p] == sprites_over(
                    snap@,
                    s as int,
                    px(p),
                    py(p),
                    before[p],
                ),
        decreases SPRITE_COUNT - s,
    {
        let ghost mid = pixels(framebuffer@);
        if 0x10800 + s * 2 + 1 < snap.vram.len() {
            let scb3: u32 = word_at(snap.vram, 0x10400 + s * 2);
            let scb4: u32 = word_at(snap.vram, 0x10800 + s * 2);
            let scb2: u32 = word_at(snap.vram, 0x10000 + s * 2);
            let width: i32 = ((scb2 / 256) % 16) as i32 + 1;
            if (scb3 / 64) % 2 == 1 {
                x = (x + w) % 512;
                w = width;
            } else {
                let height: u32 = scb3 % 64;
                let tiles: u32 = if height < 32 { height } else { 32 };
                let zoom: u32 = scb2 % 256;
                proof {
                    shrunk_lines_bound(zoom as int, tiles as int);
                }
                x = (scb4 / 128) as i32;
                w = width;
                y = 0x1F0 - (scb3 / 128) as i32;
                rows = tiles as i32;
                lines = (((zoom + 1) * tiles * 16) / 256) as i32;
                vshrink = zoom as i32;
            }
            let ghost c = chain_after(snap.vram@, s + 1);
            assert(c == chain_step(snap.vram@, chain_after(snap.vram@, s as int), s as int));
            draw_sprite(framebuffer, snap, s, x, w, y, rows, lines, vshrink, Ghost(c));
        } else {
            assert(chain_after(snap.vram@, s + 1) == chain_step(
                snap.vram@,
                chain_after(snap.vram@, s as int),
                s as int,
            ));
        }
        s = s + 1;
    }
}

/// Draws frames and counts them.
pub struct VideoController {
    pub frame_count: usize,
}

/// Without sprite tiles nothing covers the pixel.
proof fn no_tiles_no_sprites(v: VideoView, n: int, x: int, y: int, under: Rgb)
    requires
        v.c_rom.len() == 0,
        0 <= n,
        0 <= y < 224,
    ensures
        sprites_over(v, n, x, y, under) == under,
    decreases n,
{
    if n > 0 {
        reveal(line_color);
        reveal(scan_color);
        no_tiles_no_sprites(v, n - 1, x, y, under);
        let s = n - 1;
        let c = chain_after(v.vram, s + 1);
        let line = sprite_line(c, y);
        let src = source_line(c, v.lo_rom, line);
        let w0 = word(v.vram, (s * 64 + (src / 16) * 2) * 2);
        let w1 = word(v.vram, (s * 64 + (src / 16) * 2) * 2 + 2);
        assert(animated_tile(w0, w1, v.auto_anim_frame) >= 0);
    }
}

impl VideoController {
    pub fn new() -> (r: Self)
        ensures
            r.frame_count == 0,
    {
        VideoController { frame_count: 0 }
    }

    /// Render one full frame.
    pub fn render(&mut self, framebuffer: &mut [u8], snap: &VideoSnapshot<'_>)
        requires
            old(framebuffer)@.len() == FRAMEBUFFER_BYTES,
            snap.pal_ram@.len() >= 0x4000,
            old(self).frame_count < usize::MAX,
        ensures
            final(self).frame_count == old(self).frame_count + 1,
            final(framebuffer)@.len() == FRAMEBUFFER_BYTES,
            pixels(final(framebuffer)@) == frame(snap@),
    {
        self.frame_count = self.frame_count + 1;
        let back = palette_color(snap.pal_ram, snap.pal_bank, 255, 15, snap.shadow);
        let mut at: usize = 0;
        while at < SCREEN_PIXELS
            invariant
                framebuffer@.len() == FRAMEBUFFER_BYTES,
                at <= SCREEN_PIXELS,
                back == backdrop(snap@),
                forall|p: int| 0 <= p < at ==> #[trigger] pixels(framebuffer@)[p] == back,
            decreases SCREEN_PIXELS - at,
        {
            put_pixel(framebuffer, at, back);
            at = at + 1;
        }
        let ghost empty = pixels(framebuffer@);
        if snap.c_rom.len() > 0 {
            draw_sprites(framebuffer, snap);
        }
        let ghost under = pixels(framebuffer@);
        proof {
            assert forall|p: int| 0 <= p < SCREEN_PIXELS implies #[trigger] under[p] == sprites_over(
                snap@,
                SPRITE_COUNT as int,
                px(p),
                py(p),
                backdrop(snap@),
            ) by {
                if snap@.c_rom.len() == 0 {
                    no_tiles_no_sprites(
                        snap@,
                        SPRITE_COUNT as int,
                        px(p),
                        py(p),
                        backdrop(snap@),
                    );
                    assert(under[p] == empty[p]);
                }
            }
        }
        draw_fix_layer(framebuffer, snap);
        assert(pixels(framebuffer@) =~= frame(snap@)) by {
            assert forall|p: int| 0 <= p < SCREEN_PIXELS implies #[trigger] pixels(framebuffer@)[p]
                == frame_pixel(snap@, px(p), py(p)) by {
                assert(under[p] == under[p]);
            }
        }
    }
}

/// Draw the fix layer over what is there.
fn draw_fix_layer(framebuffer: &mut [u8], snap: &VideoSnapshot<'_>)
    requires
        old(framebuffer)@.len() == FRAMEBUFFER_BYTES,
        snap.pal_ram@.len() >= 0x4000,
    ensures
        final(framebuffer)@.len() == FRAMEBUFFER_BYTES,
        forall|p: int|
            0 <= p < SCREEN_PIXELS ==> #[trigger] pixels(final(framebuffer)@)[p] == over(
                fix_color(snap@, px(p), py(p)),
                pixels(old(framebuffer)@)[p],
            ),
{
    let rom: &[u8] = if snap.brd_fix || snap.s_rom.len() == 0 { snap.sfix_rom } else { snap.s_rom };
    let ghost under = pixels(framebuffer@);
    let mut col: usize = 0;
    while col < 38
        invariant
            framebuffer@.len() == FRAMEBUFFER_BYTES,
            snap.pal_ram@.len() >= 0x4000,
            rom@ == fix_rom_of(snap@),
            col <= 38,
            forall|p: int|
                0 <= p < SCREEN_PIXELS ==> #[trigger] pixels(framebuffer@)[p] == (if px(p) < 8 * col {
                    over(fix_color(snap@, px(p), py(p)), under[p])
                } else {
                    under[p]
                }),
        decreases 38 - col,
    {
        let mut row: usize = 0;
        while row < 28
            invariant
                framebuffer@.len() == FRAMEBUFFER_BYTES,
                snap.pal_ram@.len() >= 0x4000,
                rom@ == fix_rom_of(snap@),
                col < 38,
                row <= 28,
                forall|p: int|
                    0 <= p < SCREEN_PIXELS ==> #[trigger] pixels(framebuffer@)[p] == (if px(p) < 8 * col
                        || (px(p) < 8 * col + 8 && py(p) < 8 * row) {
                        over(fix_color(snap@, px(p), py(p)), under[p])
                    } else {
                        under[p]
                    }),
            decreases 28 - row,
        {
            let byte_off: usize = (0x7000 + (col + 1) * 0x20 + row + 2) * 2;
            let ghost mid = pixels(framebuffer@);
            if byte_off + 1 < snap.vram.len() {
                let cell: u32 = word_at(snap.vram, byte_off);
                draw_fix_tile(
                    framebuffer,
                    rom,
                    snap,
                    (cell % 4096) as usize,
                    (cell / 4096) as usize,
                    col * 8,
                    row * 8,
                );
            }
            proof {
                assert forall|p: int|
                    0 <= p < SCREEN_PIXELS && 8 * col <= px(p) < 8 * col + 8 && 8 * row <= py(p) < 8 * row
                        + 8 implies #[trigger] pixels(framebuffer@)[p] == over(
                    fix_color(snap@, px(p), py(p)),
                    mid[p],
                ) by {
                    assert(px(p) / 8 == col && py(p) / 8 == row);
                    assert(px(p) % 8 == px(p) - 8 * col && py(p) % 8 == py(p) - 8 * row);
                    assert(fix_cell_offset(px(p) / 8, py(p) / 8) == byte_off);
                }
            }
            row = row + 1;
        }
        col = col + 1;
    }
}

/// The picture is a function of the video state alone: two controllers show the same
/// frame for the same state, whatever their framebuffers held.
pub proof fn frame_is_pure(a: Seq<u8>, b: Seq<u8>, v: VideoView)
    requires
        a.len() == FRAMEBUFFER_BYTES,
        b.len() == FRAMEBUFFER_BYTES,
        pixels(a) == frame(v),
        pixels(b) == frame(v),
    ensures
        a == b,
{
    assert forall|i: int| 0 <= i < a.len() implies a[i] == b[i] by {
        let p = i / 3;
        assert(pixels(a)[p] == pixels(b)[p]);
        assert(i == 3 * p || i == 3 * p + 1 || i == 3 * p + 2);
    }
    assert(a =~= b);
}

/// An opaque fix pixel covers every sprite.
pub proof fn fix_layer_is_on_top(v: VideoView, x: int, y: int)
    requires
        fix_color(v, x, y) is Some,
    ensures
        frame_pixel(v, x, y) == fix_color(v, x, y)->0,
{
}

/// A sticky sprite stands to the right of the one before it and takes over its top,
/// height and vertical shrink.
pub proof fn sticky_sprite_continues_chain(vram: Seq<u8>, s: int)
    requires
        0 < s,
        sprite_present(vram, s),
        (word(vram, 0x10400 + 2 * s) / 64) % 2 == 1,
    ensures
        ({
            let prev = chain_after(vram, s);
            let this = chain_after(vram, s + 1);
            &&& this.x == (prev.x + prev.w) % 512
            &&& this.y == prev.y
            &&& this.rows == prev.rows
            &&& this.lines == prev.lines
            &&& this.vshrink == prev.vshrink
        }),
{
}

} // verus!
