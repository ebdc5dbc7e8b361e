//! CPS1 video: three scrolling tile layers and block sprites into a 384x224 RGB24
//! framebuffer.
//!
//! Four slots of the layer-control register say in which order sprites and tile layers are
//! drawn, bottom first.  Pens that the priority mask selects sit above everything drawn
//! later.

use crate::bits::low_bits_are_remainders;
use crate::cps::bus::{CpsBus, CpsBusView};
use crate::cps::config::{
    CpsGame, GFXTYPE_SCROLL1, GFXTYPE_SCROLL2, GFXTYPE_SCROLL3, GFXTYPE_SPRITES,
};
use crate::cps::save_state::{copied_words, overlaid, overlay_words};
use crate::raster::{bit_at, pixels, Rgb};
use vstd::prelude::*;

verus! {

pub const WIDTH: usize = 384;
pub const HEIGHT: usize = 224;

/// Pixels on the screen.
pub const PIXELS: usize = 86016;

/// Size of the RGB24 framebuffer in bytes.
pub const FRAMEBUFFER_BYTES: usize = 258048;

/// Entries of the palette: six pages of 0x200.
pub const PALETTE_ENTRIES: usize = 0xc00;

/// Words of the sprite table.
pub const OBJ_WORDS: usize = 0x400;

// Word indices of CPS-A registers.
pub const OBJ_BASE: usize = 0x00;
pub const SCROLL1_BASE: usize = 0x01;
pub const SCROLL2_BASE: usize = 0x02;
pub const SCROLL3_BASE: usize = 0x03;
pub const OTHER_BASE: usize = 0x04;
pub const PALETTE_BASE: usize = 0x05;
pub const SCROLL1_X: usize = 0x06;
pub const SCROLL1_Y: usize = 0x07;
pub const SCROLL2_X: usize = 0x08;
pub const SCROLL2_Y: usize = 0x09;
pub const SCROLL3_X: usize = 0x0a;
pub const SCROLL3_Y: usize = 0x0b;
pub const ROWSCROLL_OFFS: usize = 0x10;
pub const VIDEOCONTROL: usize = 0x11;

// Alignment of the regions that base registers point at, in bytes.
pub const SCROLL_SIZE: u32 = 0x4000;
pub const OBJ_SIZE: u32 = 0x0800;
pub const OTHER_SIZE: u32 = 0x0800;
pub const PALETTE_ALIGN: u32 = 0x0400;

/// Level of tile pens that sit above the sprites.
pub const HIGH_LEVEL: u8 = 200;

/// Pen of the backdrop.
pub const BACKDROP: u16 = 0xbff;

// ── Model ────────────────────────────────────────────────────────────────────

/// What has been drawn at a pixel: the level it was drawn at and its palette index.
pub struct Dot {
    pub level: u8,
    pub color: u16,
}

/// What a layer shows at a pixel: palette index and level.
pub type Shown = Option<(u16, u8)>;

/// A pixel after something was drawn over it; a lower level stays underneath.
pub open spec fn drawn(dot: Dot, s: Shown) -> Dot {
    match s {
        Some((color, level)) => if level >= dot.level { Dot { level, color } } else { dot },
        None => dot,
    }
}

/// A tile layer.
#[derive(Clone, Copy)]
pub struct Layer {
    /// Edge of a tile in pixels: 8, 16 or 32.
    pub size: usize,
    /// Word offset of the map in graphics RAM.
    pub base: usize,
    pub scrollx: i32,
    pub scrolly: i32,
    /// First palette of the layer.
    pub color_add: u16,
    pub gfxtype: i32,
    pub code_mask: u16,
    /// Pens that sit above the sprites.
    pub prio_reg: u16,
    pub slot_level: u8,
    /// Table of extra horizontal scroll per row, with its start.
    pub rowscroll: Option<(usize, i32)>,
}

impl Layer {
    pub open spec fn wf(self) -> bool {
        &&& self.size == 8 || self.size == 16 || self.size == 32
        &&& self.base < 0x20000
        &&& -0x8000 <= self.scrollx < 0x8000
        &&& -0x8000 <= self.scrolly < 0x8000
        &&& self.color_add <= 0x60
        &&& self.rowscroll matches Some((b, o)) ==> b < 0x20000 && 0 <= o < 0x10000
    }
}

/// Map index of a tile at a row and column of the map.
#[verifier::opaque]
pub open spec fn scan_index(size: int, row: int, col: int) -> int {
    if size == 8 {
        row % 32 + (col % 64) * 32 + ((row / 32) % 2) * 2048
    } else if size == 16 {
        row % 16 + (col % 64) * 16 + ((row / 16) % 4) * 1024
    } else {
        row % 8 + (col % 64) * 8 + ((row / 8) % 8) * 512
    }
}

/// Byte offset in the graphics data of a row of eight pixels.  A tile row holds four plane
/// bytes for every eight pixels; an 8x8 tile is the left or right half of a 16-pixel fetch.
pub open spec fn row_offset(size: int, code: int, x: int, y: int, gfxset: int) -> int {
    if size == 8 {
        code * 64 + y * 8 + gfxset * 4
    } else if size == 16 {
        code * 128 + y * 8 + (x / 8) * 4
    } else {
        code * 512 + y * 16 + (x / 8) * 4
    }
}

/// Pen of a tile's pixel: one bit of each plane, the leftmost pixel in bit 7.  Beyond the
/// data everything is transparent (15).
pub open spec fn tile_pen(gfx: Seq<u8>, size: int, code: int, x: int, y: int, gfxset: int) -> int {
    let base = row_offset(size, code, x, y, gfxset);
    let k = 7 - x % 8;
    if code < 0 || base + 3 >= gfx.len() {
        15
    } else {
        bit_at(gfx[base + 3], k) * 8 + bit_at(gfx[base + 2], k) * 4 + bit_at(gfx[base + 1], k) * 2 + bit_at(
            gfx[base],
            k,
        )
    }
}

/// Position of a tile in the graphics data: where the banks map it, else its own code.
pub open spec fn tile_position(game: CpsGame, gfxtype: i32, code: int) -> int {
    let m = game.mapped(gfxtype, code as i32);
    if m < 0 { code } else { m as int }
}

/// A coordinate counted from the other edge, where flipped.
pub open spec fn flipped(flip: bool, size: int, t: int) -> int {
    if flip { size - 1 - t } else { t }
}

/// Horizontal scroll of a screen row.
pub open spec fn row_scroll(bus: CpsBusView, l: Layer, y: int) -> int {
    match l.rowscroll {
        Some((b, o)) => l.scrollx + bus.gfx_word(b + (y + 16 + o) % 1024),
        None => l.scrollx as int,
    }
}

/// What a tile layer shows at a screen pixel.
pub open spec fn tile_shown(gfx: Seq<u8>, bus: CpsBusView, l: Layer, x: int, y: int) -> Shown {
    let size = l.size as int;
    let wx = x + 64 + row_scroll(bus, l, y);
    let wy = y + 16 + l.scrolly;
    let entry = l.base + 2 * scan_index(size, wy / size, wx / size);
    let code = (bus.gfx_word(entry) & l.code_mask) as int;
    let attr = bus.gfx_word(entry + 1);
    let pen = tile_pen(
        gfx,
        size,
        tile_position(bus.game, l.gfxtype, code),
        flipped((attr / 32) % 2 == 1, size, wx % size),
        flipped((attr / 64) % 2 == 1, size, wy % size),
        if size == 8 { (wx / size) % 2 } else { 0 },
    );
    if pen == 15 {
        None
    } else {
        Some(
            (
                ((l.color_add + attr % 32) * 16 + pen) as u16,
                if (l.prio_reg >> (pen as u16)) & 1 != 0 { HIGH_LEVEL } else { l.slot_level },
            ),
        )
    }
}

/// The screen after a tile layer.
pub open spec fn layer_drawn(before: Seq<Dot>, gfx: Seq<u8>, bus: CpsBusView, l: Layer) -> Seq<Dot> {
    Seq::new(PIXELS as nat, |p: int| drawn(before[p], tile_shown(gfx, bus, l, p % 384, p / 384)))
}

/// One 16x16 cell of a sprite.
#[derive(Clone, Copy)]
pub struct Cell {
    pub tile: i32,
    pub palette: u16,
    pub sx: i32,
    pub sy: i32,
    pub flipx: bool,
    pub flipy: bool,
}

impl Cell {
    pub open spec fn wf(self) -> bool {
        &&& 0 <= self.tile <= 0x10100
        &&& self.palette < 32
        &&& -64 <= self.sx < 512
        &&& -16 <= self.sy < 512
    }
}

/// Cells of a sprite: columns and rows.
pub open spec fn sprite_columns(obj: Seq<u16>, i: int) -> int {
    (obj[4 * i + 3] / 256) % 16 + 1
}

pub open spec fn sprite_rows(obj: Seq<u16>, i: int) -> int {
    (obj[4 * i + 3] / 4096) % 16 + 1
}

/// Cell at column `bx` and row `by` of sprite `i`.  Tiles run on within their group of
/// sixteen along a row and by sixteen down a column; positions wrap at 512.
pub open spec fn sprite_cell(obj: Seq<u16>, i: int, bx: int, by: int) -> Cell {
    let code = obj[4 * i + 2] as int;
    let attr = obj[4 * i + 3];
    let flipx = (attr / 32) % 2 == 1;
    let flipy = (attr / 64) % 2 == 1;
    let xidx = flipped(flipx, sprite_columns(obj, i), bx);
    let yidx = flipped(flipy, sprite_rows(obj, i), by);
    Cell {
        tile: (code - code % 16 + (code + xidx) % 16 + 16 * yidx) as i32,
        palette: attr % 32,
        sx: ((obj[4 * i] % 512 + bx * 16) % 512 - 64) as i32,
        sy: ((obj[4 * i + 1] % 512 + by * 16) % 512 - 16) as i32,
        flipx,
        flipy,
    }
}

/// The cells of sprite `i`, column by column.
pub open spec fn sprite_cells(obj: Seq<u16>, i: int) -> Seq<Cell> {
    Seq::new(
        (sprite_columns(obj, i) * sprite_rows(obj, i)) as nat,
        |k: int| sprite_cell(obj, i, k / sprite_rows(obj, i), k % sprite_rows(obj, i)),
    )
}

/// The cells of sprites `i` down to 0: the first sprite is drawn last.
pub open spec fn cells_down_from(obj: Seq<u16>, i: int) -> Seq<Cell>
    decreases i + 1,
{
    if i < 0 { Seq::empty() } else { sprite_cells(obj, i) + cells_down_from(obj, i - 1) }
}

/// An end mark of the sprite table.
pub open spec fn is_end_mark(obj: Seq<u16>, i: int) -> bool {
    obj[4 * i + 3] >= 0xff00
}

/// First end mark from sprite `i` on, or 256.
pub open spec fn end_from(obj: Seq<u16>, i: int) -> int
    decreases 256 - i,
{
    if i >= 256 || is_end_mark(obj, i) { i } else { end_from(obj, i + 1) }
}

/// The last sprite that is drawn; the first always is.
pub open spec fn last_sprite(obj: Seq<u16>) -> int {
    if end_from(obj, 0) == 0 { 0 } else { end_from(obj, 0) - 1 }
}

/// All cells in drawing order.
pub open spec fn all_cells(obj: Seq<u16>) -> Seq<Cell> {
    cells_down_from(obj, last_sprite(obj))
}

/// What a cell shows at a screen pixel.
pub open spec fn cell_shown(game: CpsGame, gfx: Seq<u8>, c: Cell, level: u8, x: int, y: int) -> Shown {
    let pen = tile_pen(
        gfx,
        16,
        tile_position(game, GFXTYPE_SPRITES, c.tile as int),
        flipped(c.flipx, 16, x - c.sx),
        flipped(c.flipy, 16, y - c.sy),
        0,
    );
    if x < c.sx || x >= c.sx + 16 || y < c.sy || y >= c.sy + 16 || pen == 15 {
        None
    } else {
        Some(((c.palette * 16 + pen) as u16, level))
    }
}

/// The screen after one cell.
pub open spec fn cell_drawn(before: Seq<Dot>, game: CpsGame, gfx: Seq<u8>, c: Cell, level: u8) -> Seq<Dot> {
    Seq::new(PIXELS as nat, |p: int| drawn(before[p], cell_shown(game, gfx, c, level, p % 384, p / 384)))
}

/// The screen after the first `n` cells.
pub open spec fn cells_drawn(before: Seq<Dot>, game: CpsGame, gfx: Seq<u8>, cells: Seq<Cell>, n: int, level: u8) -> Seq<Dot>
    decreases n,
{
    if n <= 0 {
        before
    } else {
        cell_drawn(cells_drawn(before, game, gfx, cells, n - 1, level), game, gfx, cells[n - 1], level)
    }
}

/// The screen after the sprites.
pub open spec fn sprites_drawn(before: Seq<Dot>, game: CpsGame, gfx: Seq<u8>, obj: Seq<u16>, level: u8) -> Seq<Dot> {
    cells_drawn(before, game, gfx, all_cells(obj), all_cells(obj).len() as int, level)
}

/// A CPS-B register by its byte offset.
pub open spec fn b_register(bus: CpsBusView, offset: i32) -> u16 {
    bus.cps_b[(offset / 2) % 32]
}

/// The priority mask of the first tile group, which all layers use.
pub open spec fn priority_mask(bus: CpsBusView) -> u16 {
    let p = bus.game.cpsb.priority@[0];
    if p < 0 { 0 } else { b_register(bus, p) }
}

/// A signed scroll register.
pub open spec fn scroll_of(bus: CpsBusView, reg: usize) -> i32 {
    (bus.cps_a[reg as int] as i16) as i32
}

/// The 8x8 layer.
pub open spec fn scroll1(bus: CpsBusView, level: u8) -> Layer {
    Layer {
        size: 8,
        base: bus.base(SCROLL1_BASE as int, SCROLL_SIZE) as usize,
        scrollx: scroll_of(bus, SCROLL1_X),
        scrolly: scroll_of(bus, SCROLL1_Y),
        color_add: 0x20,
        gfxtype: GFXTYPE_SCROLL1,
        code_mask: 0xffff,
        prio_reg: priority_mask(bus),
        slot_level: level,
        rowscroll: None,
    }
}

/// The 16x16 layer, scrolled row by row where the video control says so.
pub open spec fn scroll2(bus: CpsBusView, level: u8) -> Layer {
    Layer {
        size: 16,
        base: bus.base(SCROLL2_BASE as int, SCROLL_SIZE) as usize,
        scrollx: scroll_of(bus, SCROLL2_X),
        scrolly: scroll_of(bus, SCROLL2_Y),
        color_add: 0x40,
        gfxtype: GFXTYPE_SCROLL2,
        code_mask: 0xffff,
        prio_reg: priority_mask(bus),
        slot_level: level,
        rowscroll: if bus.cps_a[VIDEOCONTROL as int] & 0x01 != 0 {
            Some((bus.base(OTHER_BASE as int, OTHER_SIZE) as usize, bus.cps_a[ROWSCROLL_OFFS as int] as i32))
        } else {
            None
        },
    }
}

/// The 32x32 layer.
pub open spec fn scroll3(bus: CpsBusView, level: u8) -> Layer {
    Layer {
        size: 32,
        base: bus.base(SCROLL3_BASE as int, SCROLL_SIZE) as usize,
        scrollx: scroll_of(bus, SCROLL3_X),
        scrolly: scroll_of(bus, SCROLL3_Y),
        color_add: 0x60,
        gfxtype: GFXTYPE_SCROLL3,
        code_mask: 0x3fff,
        prio_reg: priority_mask(bus),
        slot_level: level,
        rowscroll: None,
    }
}

/// The layer-control register.
pub open spec fn layer_control(bus: CpsBusView) -> u16 {
    b_register(bus, bus.game.cpsb.layer_control)
}

/// What slot `k` draws: 0 sprites, 1 to 3 the tile layers.
pub open spec fn slot_layer(bus: CpsBusView, k: int) -> int {
    let lc = layer_control(bus) as int;
    if k == 0 {
        (lc / 64) % 4
    } else if k == 1 {
        (lc / 256) % 4
    } else if k == 2 {
        (lc / 1024) % 4
    } else {
        (lc / 4096) % 4
    }
}

/// Whether tile layer `n` is switched on; the background layers need the video control too.
pub open spec fn layer_enabled(bus: CpsBusView, n: int) -> bool {
    let on = layer_control(bus) & (bus.game.cpsb.layer_enable_mask@[n - 1] as u16) != 0;
    if n == 1 {
        on
    } else if n == 2 {
        on && bus.cps_a[VIDEOCONTROL as int] & 0x04 != 0
    } else {
        on && bus.cps_a[VIDEOCONTROL as int] & 0x08 != 0
    }
}

/// Level at which slot `k` draws.
pub open spec fn slot_level(k: int) -> u8 {
    ((k + 1) * 2) as u8
}

/// The tile layer that slot `k` draws, if it draws one.
pub open spec fn slot_tiles(bus: CpsBusView, k: int) -> Option<Layer> {
    let n = slot_layer(bus, k);
    if n == 0 || !layer_enabled(bus, n) {
        None
    } else if n == 1 {
        Some(scroll1(bus, slot_level(k)))
    } else if n == 2 {
        Some(scroll2(bus, slot_level(k)))
    } else {
        Some(scroll3(bus, slot_level(k)))
    }
}

/// The screen after slot `k`.
pub open spec fn slot_drawn(before: Seq<Dot>, gfx: Seq<u8>, obj: Seq<u16>, bus: CpsBusView, k: int) -> Seq<Dot> {
    if slot_layer(bus, k) == 0 {
        sprites_drawn(before, bus.game, gfx, obj, slot_level(k))
    } else {
        match slot_tiles(bus, k) {
            Some(l) => layer_drawn(before, gfx, bus, l),
            None => before,
        }
    }
}

/// The empty screen.
pub open spec fn blank() -> Seq<Dot> {
    Seq::new(PIXELS as nat, |p: int| Dot { level: 0, color: BACKDROP })
}

/// The screen after the first `n` slots.
pub open spec fn slots_drawn(gfx: Seq<u8>, obj: Seq<u16>, bus: CpsBusView, n: int) -> Seq<Dot>
    decreases n,
{
    if n <= 0 { blank() } else { slot_drawn(slots_drawn(gfx, obj, bus, n - 1), gfx, obj, bus, n - 1) }
}

/// One channel of a colour: a nibble scaled by the brightness.
pub open spec fn channel(nibble: int, bright: int) -> u8 {
    let v = nibble * 17 * bright / 45;
    (if v <= 255 { v } else { 255 }) as u8
}

/// The colour of a palette word: brightness, red, green and blue nibbles.
pub open spec fn entry_color(w: u16) -> Rgb {
    let bright = 15 + 2 * (w / 4096);
    (
        channel(((w / 256) % 16) as int, bright),
        channel(((w / 16) % 16) as int, bright),
        channel((w % 16) as int, bright),
    )
}

/// Palette pages that are copied, as bits.
pub open spec fn page_bits(bus: CpsBusView) -> u16 {
    let pc = bus.game.cpsb.palette_control;
    if pc < 0 { 0x3f } else { b_register(bus, pc) }
}

/// Whether a page is copied.
pub open spec fn page_enabled(bits: u16, page: int) -> bool {
    bits & (1u16 << (page as u16)) != 0
}

/// First page from `page` on that is copied, or 6.
pub open spec fn first_page(bits: u16, page: int) -> int
    decreases 6 - page,
{
    if page >= 6 || page_enabled(bits, page) { page } else { first_page(bits, page + 1) }
}

/// An entry of the palette after copying: pages that are not enabled keep their colours, and
/// the source starts at the first that is.
pub open spec fn palette_entry(old_palette: Seq<Rgb>, bus: CpsBusView, i: int) -> Rgb {
    let page = i / 512;
    let bits = page_bits(bus);
    if page_enabled(bits, page) {
        entry_color(
            bus.gfx_word(bus.base(PALETTE_BASE as int, PALETTE_ALIGN) + (page - first_page(bits, 0)) * 512 + i % 512),
        )
    } else {
        old_palette[i]
    }
}

/// The palette after copying.
pub open spec fn palette_after(old_palette: Seq<Rgb>, bus: CpsBusView) -> Seq<Rgb> {
    Seq::new(PALETTE_ENTRIES as nat, |i: int| palette_entry(old_palette, bus, i))
}

/// The colour of a palette index; indices beyond the palette show its last entry.
pub open spec fn lookup(palette: Seq<Rgb>, color: u16) -> Rgb {
    palette[if color <= 0xbff { color as int } else { 0xbff }]
}

/// What a [`CpsVideo`] holds from frame to frame.
#[verifier::ext_equal]
pub struct CpsVideoView {
    pub framebuffer: Seq<u8>,
    pub gfx: Seq<u8>,
    pub palette: Seq<Rgb>,
    pub obj: Seq<u16>,
}

impl CpsVideoView {
    /// A new board: no graphics, a black picture and palette, no sprites.
    pub open spec fn power_on() -> CpsVideoView {
        CpsVideoView {
            framebuffer: Seq::new(FRAMEBUFFER_BYTES as nat, |i: int| 0u8),
            gfx: Seq::empty(),
            palette: Seq::new(PALETTE_ENTRIES as nat, |i: int| (0u8, 0u8, 0u8)),
            obj: Seq::new(OBJ_WORDS as nat, |i: int| 0u16),
        }
    }

    pub open spec fn wf(self) -> bool {
        &&& self.framebuffer.len() == FRAMEBUFFER_BYTES
        &&& self.palette.len() == PALETTE_ENTRIES
        &&& self.obj.len() == OBJ_WORDS
    }

    /// The picture, row by row.
    pub open spec fn picture(self, bus: CpsBusView) -> Seq<Rgb> {
        Seq::new(
            PIXELS as nat,
            |p: int|
                lookup(
                    palette_after(self.palette, bus),
                    slots_drawn(self.gfx, self.obj, bus, 4)[p].color,
                ),
        )
    }

    /// The sprite table that the bus holds now.
    pub open spec fn live_obj(bus: CpsBusView) -> Seq<u16> {
        Seq::new(OBJ_WORDS as nat, |i: int| bus.gfx_word(bus.base(OBJ_BASE as int, OBJ_SIZE) + i))
    }
}

// ── Renderer ─────────────────────────────────────────────────────────────────

/// What has been drawn so far in a frame.
pub struct Canvas {
    color: Vec<u16>,
    pri: Vec<u8>,
}

impl View for Canvas {
    type V = Seq<Dot>;

    closed spec fn view(&self) -> Seq<Dot> {
        Seq::new(self.color@.len(), |p: int| Dot { level: self.pri@[p], color: self.color@[p] })
    }
}

impl Canvas {
    pub closed spec fn wf(&self) -> bool {
        self.color@.len() == PIXELS && self.pri@.len() == PIXELS
    }

    fn new() -> (r: Self)
        ensures
            r.wf(),
    {
        Canvas { color: vec![0u16; PIXELS], pri: vec![0u8; PIXELS] }
    }

    fn clear(&mut self)
        requires
            old(self).wf(),
        ensures
            final(self).wf(),
            final(self)@ == blank(),
    {
        let mut i: usize = 0;
        while i < PIXELS
            invariant
                i <= PIXELS,
                self.wf(),
                forall|k: int| 0 <= k < i ==> self.color@[k] == BACKDROP && self.pri@[k] == 0,
            decreases PIXELS - i,
        {
            self.color.set(i, BACKDROP);
            self.pri.set(i, 0);
            i = i + 1;
        }
        assert(self@ =~= blank());
    }

    fn put(&mut self, p: usize, palidx: u16, level: u8)
        requires
            old(self).wf(),
            p < PIXELS,
        ensures
            final(self).wf(),
            final(self)@ == old(self)@.update(p as int, drawn(old(self)@[p as int], Some((palidx, level)))),
    {
        if level >= self.pri[p] {
            self.pri.set(p, level);
            self.color.set(p, palidx);
        }
        assert(self@ =~= old(self)@.update(p as int, drawn(old(self)@[p as int], Some((palidx, level)))));
    }
}

/// Column and row of a pixel number.
proof fn pixel_number(x: int, y: int)
    requires
        0 <= x < 384,
        0 <= y < 224,
    ensures
        0 <= y * 384 + x < PIXELS,
        (y * 384 + x) % 384 == x,
        (y * 384 + x) / 384 == y,
{
}

fn tile_pixel(gfx: &Vec<u8>, size: usize, phys_code: i32, x: usize, y: usize, gfxset: usize) -> (r: u8)
    requires
        size == 8 || size == 16 || size == 32,
        x < size,
        y < size,
        gfxset <= 1,
        phys_code <= 0x40_0000,
    ensures
        r == tile_pen(gfx@, size as int, phys_code as int, x as int, y as int, gfxset as int),
        r <= 15,
{
    if phys_code < 0 {
        return 15;
    }
    let code: usize = phys_code as usize;
    let base: usize = if size == 8 {
        code * 64 + y * 8 + gfxset * 4
    } else if size == 16 {
        code * 128 + y * 8 + (x / 8) * 4
    } else {
        code * 512 + y * 16 + (x / 8) * 4
    };
    if base >= gfx.len() || gfx.len() - base < 4 {
        return 15;
    }
    let k: u8 = (7 - x % 8) as u8;
    let b0: u8 = (gfx[base] >> k) & 1;
    let b1: u8 = (gfx[base + 1] >> k) & 1;
    let b2: u8 = (gfx[base + 2] >> k) & 1;
    let b3: u8 = (gfx[base + 3] >> k) & 1;
    proof {
        low_bits_are_remainders();
    }
    b3 * 8 + b2 * 4 + b1 * 2 + b0
}

fn tilemap_scan(size: usize, row: u32, col: u32) -> (r: usize)
    requires
        size == 8 || size == 16 || size == 32,
    ensures
        r == scan_index(size as int, row as int, col as int),
        r < 4096,
{
    reveal(scan_index);
    let i: u32 = if size == 8 {
        row % 32 + (col % 64) * 32 + ((row / 32) % 2) * 2048
    } else if size == 16 {
        row % 16 + (col % 64) * 16 + ((row / 16) % 4) * 1024
    } else {
        row % 8 + (col % 64) * 8 + ((row / 8) % 8) * 512
    };
    i as usize
}

/// Adding a multiple of the map's height or width leaves the tile and the place within it.
proof fn biased(size: int, w: int)
    requires
        size == 8 || size == 16 || size == 32,
    ensures
        (w + 0x10000) % size == w % size,
        (w + 0x10000) / size == w / size + 0x10000int / size,
        (0x10000int / size) % 64 == 0,
{
}

/// A whole number of periods more leaves the remainder and adds to the quotient.
proof fn periods_more(x: int, k: int, m: int)
    requires
        m > 0,
    ensures
        (x + k * m) % m == x % m,
        (x + k * m) / m == x / m + k,
{
    vstd::arithmetic::div_mod::lemma_mod_multiples_vanish(k, x, m);
    vstd::arithmetic::div_mod::lemma_hoist_over_denominator(x, k, m as nat);
    assert(m * k + x == x + k * m) by (nonlinear_arith);
}

proof fn scan_repeats(size: int, row: int, col: int)
    requires
        size == 8 || size == 16 || size == 32,
    ensures
        scan_index(size, row + 0x10000int / size, col + 0x10000int / size) == scan_index(size, row, col),
        (col + 0x10000int / size) % 2 == col % 2,
{
    if size == 8 {
        scan_repeats_8(row, col);
    } else if size == 16 {
        scan_repeats_16(row, col);
    } else {
        scan_repeats_32(row, col);
    }
}

proof fn scan_repeats_8(row: int, col: int)
    ensures
        scan_index(8, row + 8192, col + 8192) == scan_index(8, row, col),
        (col + 8192) % 2 == col % 2,
{
    reveal(scan_index);
    periods_more(row, 256, 32);
    periods_more(row / 32, 128, 2);
    periods_more(col, 128, 64);
    periods_more(col, 4096, 2);
}

proof fn scan_repeats_16(row: int, col: int)
    ensures
        scan_index(16, row + 4096, col + 4096) == scan_index(16, row, col),
        (col + 4096) % 2 == col % 2,
{
    reveal(scan_index);
    periods_more(row, 256, 16);
    periods_more(row / 16, 64, 4);
    periods_more(col, 64, 64);
    periods_more(col, 2048, 2);
}

proof fn scan_repeats_32(row: int, col: int)
    ensures
        scan_index(32, row + 2048, col + 2048) == scan_index(32, row, col),
        (col + 2048) % 2 == col % 2,
{
    reveal(scan_index);
    periods_more(row, 256, 8);
    periods_more(row / 8, 32, 8);
    periods_more(col, 32, 64);
    periods_more(col, 1024, 2);
}

/// A place in a tile map.
struct Place {
    /// Map index of the tile.
    index: usize,
    /// Pixel within the tile.
    tx: usize,
    ty: usize,
    /// Half of the fetch that an 8x8 tile is.
    half: usize,
}

/// Tile number and pixel within the tile of a map coordinate; numbers are counted from a
/// multiple of the map's size, so that they are not negative.
fn split_coordinate(size: usize, w: i32) -> (r: (u32, usize))
    requires
        size == 8 || size == 16 || size == 32,
        -0x10000 <= w <= 0x40000,
    ensures
        r.0 == w as int / size as int + 0x10000int / size as int,
        r.1 == w as int % size as int,
        r.1 < size,
{
    let b: u32 = (w + 0x10000) as u32;
    proof {
        biased(size as int, w as int);
    }
    if size == 8 {
        (b / 8, (b % 8) as usize)
    } else if size == 16 {
        (b / 16, (b % 16) as usize)
    } else {
        (b / 32, (b % 32) as usize)
    }
}

/// The place of a map position.
fn find_place(size: usize, wx: i32, wy: i32) -> (r: Place)
    requires
        size == 8 || size == 16 || size == 32,
        -0x10000 <= wx <= 0x40000,
        -0x10000 <= wy <= 0x40000,
    ensures
        r.index == scan_index(size as int, wy as int / size as int, wx as int / size as int),
        r.index < 4096,
        r.tx == wx as int % size as int,
        r.tx < size,
        r.ty == wy as int % size as int,
        r.ty < size,
        r.half == (if size == 8 { (wx as int / size as int) % 2 } else { 0 }),
        r.half <= 1,
{
    let (col, tx) = split_coordinate(size, wx);
    let (row, ty) = split_coordinate(size, wy);
    proof {
        scan_repeats(size as int, wy as int / size as int, wx as int / size as int);
    }
    Place {
        index: tilemap_scan(size, row, col),
        tx,
        ty,
        half: if size == 8 { (col % 2) as usize } else { 0 },
    }
}

fn row_scroll_at(bus: &CpsBus, l: &Layer, y: usize) -> (r: i32)
    requires
        l.wf(),
        y < HEIGHT,
    ensures
        r == row_scroll(bus@, *l, y as int),
        -0x8000 <= r <= 0x20000,
{
    match l.rowscroll {
        Some((b, o)) => {
            let idx: usize = ((y as i32 + 16 + o) as usize) % 1024;
            l.scrollx + bus.gfx_word(b + idx) as i32
        },
        None => l.scrollx,
    }
}

/// What a tile layer shows at a screen pixel.
fn tile_at(gfx: &Vec<u8>, bus: &CpsBus, l: &Layer, x: usize, y: usize) -> (r: Shown)
    requires
        bus@.wf(),
        l.wf(),
        x < WIDTH,
        y < HEIGHT,
    ensures
        r == tile_shown(gfx@, bus@, *l, x as int, y as int),
{
    let size: usize = l.size;
    let wx: i32 = x as i32 + 64 + row_scroll_at(bus, l, y);
    let wy: i32 = y as i32 + 16 + l.scrolly;
    let place = find_place(size, wx, wy);
    let entry: usize = l.base + place.index * 2;
    let code: u16 = bus.gfx_word(entry) & l.code_mask;
    let attr: u16 = bus.gfx_word(entry + 1);
    let fx: usize = if (attr / 32) % 2 == 1 { size - 1 - place.tx } else { place.tx };
    let fy: usize = if (attr / 64) % 2 == 1 { size - 1 - place.ty } else { place.ty };
    let mapped: i32 = bus.map_gfx(l.gfxtype, code as i32);
    let phys: i32 = if mapped < 0 { code as i32 } else { mapped };
    assert(phys == tile_position(bus@.game, l.gfxtype, code as int));
    let pen: u8 = tile_pixel(gfx, size, phys, fx, fy, place.half);
    if pen == 15 {
        return None;
    }
    let palidx: u16 = (l.color_add + attr % 32) * 16 + pen as u16;
    let high: u16 = (l.prio_reg >> (pen as u16)) & 1;
    Some((palidx, if high != 0 { HIGH_LEVEL } else { l.slot_level }))
}

fn draw_tilemap(canvas: &mut Canvas, gfx: &Vec<u8>, bus: &CpsBus, l: &Layer)
    requires
        old(canvas).wf(),
        bus@.wf(),
        l.wf(),
    ensures
        final(canvas).wf(),
        final(canvas)@ == layer_drawn(old(canvas)@, gfx@, bus@, *l),
{
    let ghost before = canvas@;
    let mut y: usize = 0;
    while y < HEIGHT
        invariant
            y <= HEIGHT,
            canvas.wf(),
            before.len() == PIXELS,
            canvas@.len() == PIXELS,
            bus@.wf(),
            l.wf(),
            forall|p: int|
                0 <= p < PIXELS ==> #[trigger] canvas@[p] == (if p < y * 384 {
                    drawn(before[p], tile_shown(gfx@, bus@, *l, p % 384, p / 384))
                } else {
                    before[p]
                }),
        decreases HEIGHT - y,
    {
        let mut x: usize = 0;
        while x < WIDTH
            invariant
                x <= WIDTH,
                y < HEIGHT,
                canvas.wf(),
                before.len() == PIXELS,
                canvas@.len() == PIXELS,
                bus@.wf(),
                l.wf(),
                forall|p: int|
                    0 <= p < PIXELS ==> #[trigger] canvas@[p] == (if p < y * 384 + x {
                        drawn(before[p], tile_shown(gfx@, bus@, *l, p % 384, p / 384))
                    } else {
                        before[p]
                    }),
            decreases WIDTH - x,
        {
            proof {
                pixel_number(x as int, y as int);
            }
            match tile_at(gfx, bus, l, x, y) {
                Some((palidx, level)) => {
                    canvas.put(y * WIDTH + x, palidx, level);
                },
                None => {},
            }
            x = x + 1;
        }
        y = y + 1;
    }
    assert(canvas@ =~= layer_drawn(before, gfx@, bus@, *l));
}

/// Rasterise one 16x16 cell.
fn draw_sprite_cell(canvas: &mut Canvas, gfx: &Vec<u8>, bus: &CpsBus, c: &Cell, level: u8)
    requires
        old(canvas).wf(),
        bus@.wf(),
        c.wf(),
    ensures
        final(canvas).wf(),
        final(canvas)@ == cell_drawn(old(canvas)@, bus@.game, gfx@, *c, level),
{
    let mapped: i32 = bus.map_gfx(GFXTYPE_SPRITES, c.tile);
    let phys: i32 = if mapped < 0 { c.tile } else { mapped };
    let ghost before = canvas@;
    let mut py: i32 = 0;
    while py < 16
        invariant
            0 <= py <= 16,
            canvas.wf(),
            before.len() == PIXELS,
            canvas@.len() == PIXELS,
            bus@.wf(),
            c.wf(),
            phys == tile_position(bus@.game, GFXTYPE_SPRITES, c.tile as int),
            phys <= 0x40_0000,
            forall|p: int|
                0 <= p < PIXELS ==> #[trigger] canvas@[p] == (if p / 384 < c.sy + py {
                    drawn(before[p], cell_shown(bus@.game, gfx@, *c, level, p % 384, p / 384))
                } else {
                    before[p]
                }),
        decreases 16 - py,
    {
        let yy: i32 = c.sy + py;
        if 0 <= yy && yy < HEIGHT as i32 {
            let fy: usize = (if c.flipy { 15 - py } else { py }) as usize;
            let mut px: i32 = 0;
            while px < 16
                invariant
                    0 <= px <= 16,
                    0 <= py < 16,
                    yy == c.sy + py,
                    0 <= yy < HEIGHT,
                    fy == flipped(c.flipy, 16, py as int),
                    canvas.wf(),
                    before.len() == PIXELS,
                    canvas@.len() == PIXELS,
                    bus@.wf(),
                    c.wf(),
                    phys == tile_position(bus@.game, GFXTYPE_SPRITES, c.tile as int),
                    phys <= 0x40_0000,
                    forall|p: int|
                        0 <= p < PIXELS ==> #[trigger] canvas@[p] == (if p / 384 < yy || (p / 384 == yy
                            && p % 384 < c.sx + px) {
                            drawn(before[p], cell_shown(bus@.game, gfx@, *c, level, p % 384, p / 384))
                        } else {
                            before[p]
                        }),
                decreases 16 - px,
            {
                let xx: i32 = c.sx + px;
                if 0 <= xx && xx < WIDTH as i32 {
                    let fx: usize = (if c.flipx { 15 - px } else { px }) as usize;
                    let pen: u8 = tile_pixel(gfx, 16, phys, fx, fy, 0);
                    proof {
                        pixel_number(xx as int, yy as int);
                    }
                    if pen != 15 {
                        canvas.put(yy as usize * WIDTH + xx as usize, c.palette * 16 + pen as u16, level);
                    }
                }
                px = px + 1;
            }
        }
        py = py + 1;
    }
    assert(canvas@ =~= cell_drawn(before, bus@.game, gfx@, *c, level));
}

proof fn end_from_bound(obj: Seq<u16>, i: int)
    requires
        0 <= i <= 256,
    ensures
        i <= end_from(obj, i) <= 256,
    decreases 256 - i,
{
    if i < 256 && !is_end_mark(obj, i) {
        end_from_bound(obj, i + 1);
    }
}

fn find_last_sprite(obj: &Vec<u16>) -> (r: usize)
    requires
        obj@.len() == OBJ_WORDS,
    ensures
        r == last_sprite(obj@),
        r < 256,
{
    let mut last: usize = 0;
    let mut i: usize = 0;
    while i < 256 && obj[i * 4 + 3] < 0xff00
        invariant
            i <= 256,
            obj@.len() == OBJ_WORDS,
            last == (if i == 0 { 0 } else { i - 1 }),
            end_from(obj@, 0) == end_from(obj@, i as int),
        decreases 256 - i,
    {
        last = i;
        i = i + 1;
    }
    last
}

/// The cell number within a sprite of a cell's column and row.
proof fn cell_number(k: int, columns: int, rows: int)
    requires
        1 <= rows <= 16,
        1 <= columns <= 16,
        0 <= k < columns * rows,
    ensures
        0 <= k / rows < columns,
        0 <= k % rows < rows,
        columns * rows <= 256,
{
    assert(k / rows < columns) by (nonlinear_arith)
        requires
            0 <= k < columns * rows,
            rows >= 1,
    ;
    assert(k / rows >= 0) by (nonlinear_arith)
        requires
            0 <= k,
            rows >= 1,
    ;
    assert(columns * rows <= 256) by (nonlinear_arith)
        requires
            1 <= rows <= 16,
            1 <= columns <= 16,
    ;
}

/// Append the cells of one sprite.
fn push_sprite(cells: &mut Vec<Cell>, obj: &Vec<u16>, i: usize)
    requires
        obj@.len() == OBJ_WORDS,
        i < 256,
        forall|j: int| 0 <= j < old(cells)@.len() ==> (#[trigger] old(cells)@[j]).wf(),
    ensures
        final(cells)@ == old(cells)@ + sprite_cells(obj@, i as int),
        forall|j: int| 0 <= j < final(cells)@.len() ==> (#[trigger] final(cells)@[j]).wf(),
{
    let x0: i32 = (obj[i * 4] % 512) as i32;
    let y0: i32 = (obj[i * 4 + 1] % 512) as i32;
    let code: i32 = obj[i * 4 + 2] as i32;
    let attr: u16 = obj[i * 4 + 3];
    let palette: u16 = attr % 32;
    let flipx = (attr / 32) % 2 == 1;
    let flipy = (attr / 64) % 2 == 1;
    let nx: i32 = ((attr / 256) % 16) as i32 + 1;
    let ny: i32 = ((attr / 4096) % 16) as i32 + 1;
    proof {
        assert(1 <= nx * ny <= 256) by (nonlinear_arith)
            requires
                1 <= nx <= 16,
                1 <= ny <= 16,
        ;
    }
    let count: i32 = nx * ny;
    let mut k: i32 = 0;
    while k < count
        invariant
            obj@.len() == OBJ_WORDS,
            i < 256,
            0 <= k <= count,
            count == nx * ny,
            nx == sprite_columns(obj@, i as int),
            ny == sprite_rows(obj@, i as int),
            1 <= nx <= 16,
            1 <= ny <= 16,
            x0 == obj@[4 * i] % 512,
            y0 == obj@[4 * i + 1] % 512,
            code == obj@[4 * i + 2],
            0 <= code <= 0xffff,
            attr == obj@[4 * i + 3],
            palette == attr % 32,
            flipx == ((attr / 32) % 2 == 1),
            flipy == ((attr / 64) % 2 == 1),
            cells@ == old(cells)@ + sprite_cells(obj@, i as int).take(k as int),
            forall|j: int| 0 <= j < cells@.len() ==> (#[trigger] cells@[j]).wf(),
        decreases count - k,
    {
        proof {
            cell_number(k as int, nx as int, ny as int);
        }
        let bx: i32 = k / ny;
        let by: i32 = k % ny;
        let xidx: i32 = if flipx { nx - 1 - bx } else { bx };
        let yidx: i32 = if flipy { ny - 1 - by } else { by };
        let cell = Cell {
            tile: code - code % 16 + (code + xidx) % 16 + 0x10 * yidx,
            palette,
            sx: (x0 + bx * 16) % 512 - 64,
            sy: (y0 + by * 16) % 512 - 16,
            flipx,
            flipy,
        };
        assert(cell == sprite_cells(obj@, i as int)[k as int]);
        assert(cell.wf());
        cells.push(cell);
        assert(cells@ =~= old(cells)@ + sprite_cells(obj@, i as int).take(k + 1));
        k = k + 1;
    }
    assert(sprite_cells(obj@, i as int).take(count as int) =~= sprite_cells(obj@, i as int));
}

/// The cells of the sprite table in drawing order.
fn collect_cells(obj: &Vec<u16>) -> (r: Vec<Cell>)
    requires
        obj@.len() == OBJ_WORDS,
    ensures
        r@ == all_cells(obj@),
        forall|j: int| 0 <= j < r@.len() ==> (#[trigger] r@[j]).wf(),
{
    let last: usize = find_last_sprite(obj);
    let mut cells: Vec<Cell> = Vec::new();
    let mut left: usize = last + 1;
    assert(cells@ + cells_down_from(obj@, last as int) =~= cells_down_from(obj@, last as int));
    while left > 0
        invariant
            left <= 256,
            obj@.len() == OBJ_WORDS,
            all_cells(obj@) == cells@ + cells_down_from(obj@, left - 1),
            forall|j: int| 0 <= j < cells@.len() ==> (#[trigger] cells@[j]).wf(),
        decreases left,
    {
        let ghost head = cells@;
        push_sprite(&mut cells, obj, left - 1);
        assert(head + cells_down_from(obj@, left - 1) =~= cells@ + cells_down_from(obj@, left - 2));
        left = left - 1;
    }
    assert(cells@ + cells_down_from(obj@, -1) =~= cells@);
    cells
}

/// Draw the latched sprites.
fn draw_sprites(canvas: &mut Canvas, gfx: &Vec<u8>, obj: &Vec<u16>, bus: &CpsBus, level: u8)
    requires
        old(canvas).wf(),
        bus@.wf(),
        obj@.len() == OBJ_WORDS,
    ensures
        final(canvas).wf(),
        final(canvas)@ == sprites_drawn(old(canvas)@, bus@.game, gfx@, obj@, level),
{
    let cells = collect_cells(obj);
    let ghost before = canvas@;
    let mut i: usize = 0;
    while i < cells.len()
        invariant
            i <= cells@.len(),
            canvas.wf(),
            bus@.wf(),
            forall|j: int| 0 <= j < cells@.len() ==> (#[trigger] cells@[j]).wf(),
            canvas@ == cells_drawn(before, bus@.game, gfx@, cells@, i as int, level),
        decreases cells@.len() - i,
    {
        let c = cells[i];
        assert(c == cells@[i as int]);
        draw_sprite_cell(canvas, gfx, bus, &c, level);
        i = i + 1;
    }
}

fn b_register_of(bus: &CpsBus, offset: i32) -> (r: u16)
    requires
        bus@.wf(),
        offset >= 0,
    ensures
        r == b_register(bus@, offset),
{
    bus.cps_b[((offset / 2) % 32) as usize]
}

fn prio_reg(bus: &CpsBus) -> (r: u16)
    requires
        bus@.wf(),
    ensures
        r == priority_mask(bus@),
{
    let p: i32 = bus.game.cpsb.priority[0];
    if p < 0 { 0 } else { b_register_of(bus, p) }
}

fn scroll_value(bus: &CpsBus, reg: usize) -> (r: i32)
    requires
        bus@.wf(),
        reg < 0x20,
    ensures
        r == scroll_of(bus@, reg),
        -0x8000 <= r < 0x8000,
{
    (bus.cps_a[reg] as i16) as i32
}

fn draw_scroll1(canvas: &mut Canvas, gfx: &Vec<u8>, bus: &CpsBus, level: u8)
    requires
        old(canvas).wf(),
        bus@.wf(),
    ensures
        final(canvas).wf(),
        final(canvas)@ == layer_drawn(old(canvas)@, gfx@, bus@, scroll1(bus@, level)),
{
    let l = Layer {
        size: 8,
        base: bus.video_base(SCROLL1_BASE, SCROLL_SIZE),
        scrollx: scroll_value(bus, SCROLL1_X),
        scrolly: scroll_value(bus, SCROLL1_Y),
        color_add: 0x20,
        gfxtype: GFXTYPE_SCROLL1,
        code_mask: 0xffff,
        prio_reg: prio_reg(bus),
        slot_level: level,
        rowscroll: None,
    };
    draw_tilemap(canvas, gfx, bus, &l);
}

fn draw_scroll2(canvas: &mut Canvas, gfx: &Vec<u8>, bus: &CpsBus, level: u8)
    requires
        old(canvas).wf(),
        bus@.wf(),
    ensures
        final(canvas).wf(),
        final(canvas)@ == layer_drawn(old(canvas)@, gfx@, bus@, scroll2(bus@, level)),
{
    let rowscroll: Option<(usize, i32)> = if bus.cps_a[VIDEOCONTROL] & 0x01 != 0 {
        Some((bus.video_base(OTHER_BASE, OTHER_SIZE), bus.cps_a[ROWSCROLL_OFFS] as i32))
    } else {
        None
    };
    let l = Layer {
        size: 16,
        base: bus.video_base(SCROLL2_BASE, SCROLL_SIZE),
        scrollx: scroll_value(bus, SCROLL2_X),
        scrolly: scroll_value(bus, SCROLL2_Y),
        color_add: 0x40,
        gfxtype: GFXTYPE_SCROLL2,
        code_mask: 0xffff,
        prio_reg: prio_reg(bus),
        slot_level: level,
        rowscroll,
    };
    draw_tilemap(canvas, gfx, bus, &l);
}

fn draw_scroll3(canvas: &mut Canvas, gfx: &Vec<u8>, bus: &CpsBus, level: u8)
    requires
        old(canvas).wf(),
        bus@.wf(),
    ensures
        final(canvas).wf(),
        final(canvas)@ == layer_drawn(old(canvas)@, gfx@, bus@, scroll3(bus@, level)),
{
    let l = Layer {
        size: 32,
        base: bus.video_base(SCROLL3_BASE, SCROLL_SIZE),
        scrollx: scroll_value(bus, SCROLL3_X),
        scrolly: scroll_value(bus, SCROLL3_Y),
        color_add: 0x60,
        gfxtype: GFXTYPE_SCROLL3,
        code_mask: 0x3fff,
        prio_reg: prio_reg(bus),
        slot_level: level,
        rowscroll: None,
    };
    draw_tilemap(canvas, gfx, bus, &l);
}

fn channel_of(nibble: u32, bright: u32) -> (r: u8)
    requires
        nibble < 16,
        bright <= 45,
    ensures
        r == channel(nibble as int, bright as int),
{
    assert(nibble * 17 * bright <= 15 * 17 * 45) by (nonlinear_arith)
        requires
            0 <= nibble < 16,
            0 <= bright <= 45,
    ;
    assert(0 <= nibble * 17 * bright) by (nonlinear_arith)
        requires
            0 <= nibble,
            0 <= bright,
    ;
    let v: u32 = nibble * 17 * bright / 45;
    if v <= 255 { v as u8 } else { 255 }
}

fn color_of_entry(w: u16) -> (r: Rgb)
    ensures
        r == entry_color(w),
{
    let p: u32 = w as u32;
    let bright: u32 = 15 + 2 * (p / 4096);
    (
        channel_of((p / 256) % 16, bright),
        channel_of((p / 16) % 16, bright),
        channel_of(p % 16, bright),
    )
}

proof fn first_page_bound(bits: u16, page: int)
    requires
        0 <= page <= 6,
    ensures
        page <= first_page(bits, page) <= 6,
        forall|k: int| page <= k < first_page(bits, page) ==> !page_enabled(bits, k),
        first_page(bits, page) < 6 ==> page_enabled(bits, first_page(bits, page)),
    decreases 6 - page,
{
    if page < 6 && !page_enabled(bits, page) {
        first_page_bound(bits, page + 1);
    }
}

/// Copy the enabled palette pages.
fn build_palette(palette: &mut Vec<Rgb>, bus: &CpsBus)
    requires
        bus@.wf(),
        old(palette)@.len() == PALETTE_ENTRIES,
    ensures
        final(palette)@ == palette_after(old(palette)@, bus@),
{
    let base: usize = bus.video_base(PALETTE_BASE, PALETTE_ALIGN);
    let pc: i32 = bus.game.cpsb.palette_control;
    let ctrl: u16 = if pc < 0 { 0x3f } else { b_register_of(bus, pc) };
    let mut src: usize = base;
    let mut copied_any = false;
    let mut page: usize = 0;
    proof {
        first_page_bound(ctrl, 0);
    }
    while page < 6
        invariant
            page <= 6,
            bus@.wf(),
            palette@.len() == PALETTE_ENTRIES,
            old(palette)@.len() == PALETTE_ENTRIES,
            base == bus@.base(PALETTE_BASE as int, PALETTE_ALIGN),
            base < 0x20000,
            ctrl == page_bits(bus@),
            0 <= first_page(ctrl, 0) <= 6,
            forall|k: int| 0 <= k < first_page(ctrl, 0) ==> !page_enabled(ctrl, k),
            first_page(ctrl, 0) < 6 ==> page_enabled(ctrl, first_page(ctrl, 0)),
            copied_any == (first_page(ctrl, 0) < page),
            src == (if first_page(ctrl, 0) < page {
                base + (page - first_page(ctrl, 0)) * 512
            } else {
                base as int
            }),
            forall|i: int|
                0 <= i < PALETTE_ENTRIES ==> #[trigger] palette@[i] == (if i < page * 512 {
                    palette_entry(old(palette)@, bus@, i)
                } else {
                    old(palette)@[i]
                }),
        decreases 6 - page,
    {
        if ctrl & (1u16 << (page as u16)) != 0 {
            assert(page_enabled(ctrl, page as int));
            let mut offset: usize = 0;
            while offset < 512
                invariant
                    offset <= 512,
                    page < 6,
                    bus@.wf(),
                    palette@.len() == PALETTE_ENTRIES,
                    base == bus@.base(PALETTE_BASE as int, PALETTE_ALIGN),
                    base < 0x20000,
                    src == base + (page - first_page(ctrl, 0)) * 512,
                    0 <= first_page(ctrl, 0) <= page,
                    ctrl == page_bits(bus@),
                    page_enabled(ctrl, page as int),
                    forall|i: int|
                        0 <= i < PALETTE_ENTRIES ==> #[trigger] palette@[i] == (if i < page * 512 + offset {
                            palette_entry(old(palette)@, bus@, i)
                        } else {
                            old(palette)@[i]
                        }),
                decreases 512 - offset,
            {
                let w: u16 = bus.gfx_word(src + offset);
                assert((page * 512 + offset) / 512 == page && (page * 512 + offset) % 512 == offset);
                palette.set(page * 512 + offset, color_of_entry(w));
                offset = offset + 1;
            }
            src = src + 512;
            copied_any = true;
        } else {
            assert(!page_enabled(ctrl, page as int));
            if copied_any {
                src = src + 512;
            }
            assert forall|i: int| page * 512 <= i < page * 512 + 512 implies palette_entry(
                old(palette)@,
                bus@,
                i,
            ) == old(palette)@[i] by {
                assert(i / 512 == page);
            }
        }
        page = page + 1;
    }
    assert(palette@ =~= palette_after(old(palette)@, bus@));
}

fn black_palette() -> (r: Vec<Rgb>)
    ensures
        r@ == Seq::new(PALETTE_ENTRIES as nat, |i: int| (0u8, 0u8, 0u8)),
{
    let mut r: Vec<Rgb> = Vec::new();
    while r.len() < PALETTE_ENTRIES
        invariant
            r@.len() <= PALETTE_ENTRIES,
            forall|k: int| 0 <= k < r@.len() ==> r@[k] == (0u8, 0u8, 0u8),
        decreases PALETTE_ENTRIES - r@.len(),
    {
        r.push((0, 0, 0));
    }
    assert(r@ =~= Seq::new(PALETTE_ENTRIES as nat, |i: int| (0u8, 0u8, 0u8)));
    r
}

/// The video board.
pub struct CpsVideo {
    pub framebuffer: Vec<u8>,
    gfx: Vec<u8>,
    canvas: Canvas,
    palette: Vec<Rgb>,
    /// Sprite table latched at the last V-blank; the live one may be half built.
    buffered_obj: Vec<u16>,
}

impl View for CpsVideo {
    type V = CpsVideoView;

    closed spec fn view(&self) -> CpsVideoView {
        CpsVideoView {
            framebuffer: self.framebuffer@,
            gfx: self.gfx@,
            palette: self.palette@,
            obj: self.buffered_obj@,
        }
    }
}

impl CpsVideo {
    /// Buffers have their sizes.
    pub open spec fn wf(&self) -> bool {
        self@.wf() && self.canvas_wf()
    }

    /// The canvas has its size.
    pub closed spec fn canvas_wf(&self) -> bool {
        self.canvas.wf()
    }

    /// The picture drawn last.
    pub fn framebuffer(&self) -> (r: &[u8])
        ensures
            r@ == self@.framebuffer,
    {
        self.framebuffer.as_slice()
    }

    pub fn new() -> (r: Self)
        ensures
            r.wf(),
            r@ == CpsVideoView::power_on(),
    {
        let r = CpsVideo {
            framebuffer: vec![0u8; FRAMEBUFFER_BYTES],
            gfx: Vec::new(),
            canvas: Canvas::new(),
            palette: black_palette(),
            buffered_obj: vec![0u16; OBJ_WORDS],
        };
        assert(r@.framebuffer =~= Seq::new(FRAMEBUFFER_BYTES as nat, |i: int| 0u8));
        assert(r@.palette =~= Seq::new(PALETTE_ENTRIES as nat, |i: int| (0u8, 0u8, 0u8)));
        assert(r@.obj =~= Seq::new(OBJ_WORDS as nat, |i: int| 0u16));
        r
    }

    pub fn set_gfx(&mut self, gfx: Vec<u8>)
        ensures
            final(self)@ == (CpsVideoView { gfx: gfx@, ..old(self)@ }),
            old(self).wf() ==> final(self).wf(),
    {
        self.gfx = gfx;
    }

    /// The latched sprite table; everything else is derived when rendering.
    pub fn snapshot_obj(&self) -> (r: Vec<u16>)
        ensures
            r@ == self@.obj,
    {
        copied_words(self.buffered_obj.as_slice())
    }

    pub fn restore_obj(&mut self, obj: &[u16])
        ensures
            final(self)@ == (CpsVideoView { obj: overlaid(old(self)@.obj, obj@), ..old(self)@ }),
            old(self).wf() ==> final(self).wf(),
    {
        overlay_words(&mut self.buffered_obj, obj);
    }

    /// Latch the sprite table that the bus holds.
    pub fn buffer_sprites(&mut self, bus: &CpsBus)
        requires
            old(self).wf(),
            bus@.wf(),
        ensures
            final(self).wf(),
            final(self)@ == (CpsVideoView { obj: CpsVideoView::live_obj(bus@), ..old(self)@ }),
    {
        let base: usize = bus.video_base(OBJ_BASE, OBJ_SIZE);
        let mut i: usize = 0;
        while i < OBJ_WORDS
            invariant
                i <= OBJ_WORDS,
                bus@.wf(),
                base == bus@.base(OBJ_BASE as int, OBJ_SIZE),
                base < 0x20000,
                self.wf(),
                self.framebuffer@ == old(self).framebuffer@,
                self.gfx@ == old(self).gfx@,
                self.palette@ == old(self).palette@,
                forall|k: int| 0 <= k < i ==> self.buffered_obj@[k] == bus@.gfx_word(base + k),
            decreases OBJ_WORDS - i,
        {
            self.buffered_obj.set(i, bus.gfx_word(base + i));
            i = i + 1;
        }
        assert(self.buffered_obj@ =~= CpsVideoView::live_obj(bus@));
    }

    fn draw_slot(&mut self, bus: &CpsBus, slot: u8)
        requires
            old(self).wf(),
            bus@.wf(),
            slot < 4,
        ensures
            final(self).wf(),
            final(self)@ == old(self)@,
            final(self).canvas@ == slot_drawn(
                old(self).canvas@,
                old(self).gfx@,
                old(self).buffered_obj@,
                bus@,
                slot as int,
            ),
    {
        let lc: u16 = b_register_of(bus, bus.game.cpsb.layer_control);
        let which: u16 = match slot {
            0 => (lc / 64) % 4,
            1 => (lc / 256) % 4,
            2 => (lc / 1024) % 4,
            _ => (lc / 4096) % 4,
        };
        let level: u8 = (slot + 1) * 2;
        let videocontrol: u16 = bus.cps_a[VIDEOCONTROL];
        if which == 0 {
            draw_sprites(&mut self.canvas, &self.gfx, &self.buffered_obj, bus, level);
        } else if which == 1 {
            if lc & (bus.game.cpsb.layer_enable_mask[0] as u16) != 0 {
                draw_scroll1(&mut self.canvas, &self.gfx, bus, level);
            }
        } else if which == 2 {
            if lc & (bus.game.cpsb.layer_enable_mask[1] as u16) != 0 && videocontrol & 0x04 != 0 {
                draw_scroll2(&mut self.canvas, &self.gfx, bus, level);
            }
        } else {
            if lc & (bus.game.cpsb.layer_enable_mask[2] as u16) != 0 && videocontrol & 0x08 != 0 {
                draw_scroll3(&mut self.canvas, &self.gfx, bus, level);
            }
        }
    }

    fn resolve(&mut self)
        requires
            old(self).wf(),
        ensures
            final(self).wf(),
            final(self)@ == (CpsVideoView { framebuffer: final(self)@.framebuffer, ..old(self)@ }),
            pixels(final(self)@.framebuffer) == Seq::new(
                PIXELS as nat,
                |p: int| lookup(old(self).palette@, old(self).canvas@[p].color),
            ),
    {
        let mut i: usize = 0;
        while i < PIXELS
            invariant
                i <= PIXELS,
                self.wf(),
                self.canvas == old(self).canvas,
                self.palette == old(self).palette,
                self.gfx == old(self).gfx,
                self.buffered_obj == old(self).buffered_obj,
                forall|p: int|
                    0 <= p < i ==> #[trigger] pixels(self.framebuffer@)[p] == lookup(
                        self.palette@,
                        self.canvas@[p].color,
                    ),
            decreases PIXELS - i,
        {
            let color: usize = self.canvas.color[i] as usize;
            let c = self.palette[if color <= 0xbff { color } else { 0xbff }];
            let o: usize = i * 3;
            let ghost before = pixels(self.framebuffer@);
            self.framebuffer.set(o, c.0);
            self.framebuffer.set(o + 1, c.1);
            self.framebuffer.set(o + 2, c.2);
            assert(pixels(self.framebuffer@) =~= before.update(i as int, c));
            i = i + 1;
        }
        assert(pixels(self.framebuffer@) =~= Seq::new(
            PIXELS as nat,
            |p: int| lookup(old(self).palette@, old(self).canvas@[p].color),
        ));
    }

    /// Render the frame that the bus and the latched sprites describe.
    pub fn render(&mut self, bus: &CpsBus)
        requires
            old(self).wf(),
            bus@.wf(),
        ensures
            final(self).wf(),
            final(self)@.gfx == old(self)@.gfx,
            final(self)@.obj == old(self)@.obj,
            final(self)@.palette == palette_after(old(self)@.palette, bus@),
            pixels(final(self)@.framebuffer) == old(self)@.picture(bus@),
    {
        build_palette(&mut self.palette, bus);
        self.canvas.clear();
        let mut slot: u8 = 0;
        while slot < 4
            invariant
                slot <= 4,
                self.wf(),
                bus@.wf(),
                self@ == (CpsVideoView {
                    palette: palette_after(old(self)@.palette, bus@),
                    ..old(self)@
                }),
                self.canvas@ == slots_drawn(self.gfx@, self.buffered_obj@, bus@, slot as int),
            decreases 4 - slot,
        {
            self.draw_slot(bus, slot);
            slot = slot + 1;
        }
        self.resolve();
        assert(pixels(self@.framebuffer) =~= old(self)@.picture(bus@));
    }
}

// ── Laws ─────────────────────────────────────────────────────────────────────

/// Rendering the same state twice gives the same picture: copying the palette a second time
/// changes nothing.
pub proof fn rendering_is_repeatable(v: CpsVideoView, bus: CpsBusView)
    requires
        v.wf(),
    ensures
        palette_after(palette_after(v.palette, bus), bus) == palette_after(v.palette, bus),
        (CpsVideoView { palette: palette_after(v.palette, bus), ..v }).picture(bus) == v.picture(bus),
{
    let once = palette_after(v.palette, bus);
    assert forall|i: int| 0 <= i < PALETTE_ENTRIES implies palette_entry(once, bus, i) == once[i] by {}
    assert(palette_after(once, bus) =~= once);
    let again = CpsVideoView { palette: once, ..v };
    assert(again.picture(bus) =~= v.picture(bus));
}

proof fn sprites_leave_high_pens(before: Seq<Dot>, game: CpsGame, gfx: Seq<u8>, cells: Seq<Cell>, n: int, level: u8, p: int)
    requires
        0 <= p < PIXELS,
        before.len() == PIXELS,
        0 <= n <= cells.len(),
        level < before[p].level,
    ensures
        cells_drawn(before, game, gfx, cells, n, level).len() == PIXELS,
        cells_drawn(before, game, gfx, cells, n, level)[p] == before[p],
    decreases n,
{
    if n > 0 {
        sprites_leave_high_pens(before, game, gfx, cells, n - 1, level, p);
    }
}

proof fn cells_drawn_len(before: Seq<Dot>, game: CpsGame, gfx: Seq<u8>, cells: Seq<Cell>, n: int, level: u8)
    requires
        before.len() == PIXELS,
    ensures
        cells_drawn(before, game, gfx, cells, n, level).len() == PIXELS,
    decreases n,
{
    if n > 0 {
        cells_drawn_len(before, game, gfx, cells, n - 1, level);
    }
}

proof fn slots_drawn_len(gfx: Seq<u8>, obj: Seq<u16>, bus: CpsBusView, n: int)
    requires
        0 <= n <= 4,
    ensures
        slots_drawn(gfx, obj, bus, n).len() == PIXELS,
    decreases n,
{
    if n > 0 {
        slots_drawn_len(gfx, obj, bus, n - 1);
        let before = slots_drawn(gfx, obj, bus, n - 1);
        cells_drawn_len(
            before,
            bus.game,
            gfx,
            all_cells(obj),
            all_cells(obj).len() as int,
            slot_level(n - 1),
        );
    }
}

/// Tile layer of slot `k` shows one of the pens that the priority mask selects.
pub open spec fn slot_shows_high(gfx: Seq<u8>, bus: CpsBusView, k: int, x: int, y: int) -> bool {
    slot_tiles(bus, k) matches Some(l) && tile_shown(gfx, bus, l, x, y) matches Some((c, level))
        && level == HIGH_LEVEL
}

/// A selected tile pen is never covered by sprites: the sprite slot leaves the pixel as the
/// tile layer drew it, wherever among the slots it stands.
pub proof fn selected_pens_sit_above_sprites(gfx: Seq<u8>, obj: Seq<u16>, bus: CpsBusView, k: int, n: int, p: int)
    requires
        0 <= k < n < 4,
        0 <= p < PIXELS,
        slot_shows_high(gfx, bus, k, p % 384, p / 384),
        slot_layer(bus, n) == 0,
    ensures
        slots_drawn(gfx, obj, bus, n + 1)[p] == slots_drawn(gfx, obj, bus, n)[p],
{
    high_pen_stays(gfx, obj, bus, k, n, p);
    slots_drawn_len(gfx, obj, bus, n);
    sprites_leave_high_pens(
        slots_drawn(gfx, obj, bus, n),
        bus.game,
        gfx,
        all_cells(obj),
        all_cells(obj).len() as int,
        slot_level(n),
        p,
    );
}

/// A pixel that once shows a selected pen keeps that level.
proof fn high_pen_stays(gfx: Seq<u8>, obj: Seq<u16>, bus: CpsBusView, k: int, n: int, p: int)
    requires
        0 <= k < n <= 4,
        0 <= p < PIXELS,
        slot_shows_high(gfx, bus, k, p % 384, p / 384),
    ensures
        slots_drawn(gfx, obj, bus, n)[p].level >= HIGH_LEVEL,
    decreases n,
{
    slots_drawn_len(gfx, obj, bus, n - 1);
    let before = slots_drawn(gfx, obj, bus, n - 1);
    if n - 1 == k {
        assert(slot_layer(bus, k) != 0);
        assert(slots_drawn(gfx, obj, bus, n)[p].level >= HIGH_LEVEL);
    } else {
        high_pen_stays(gfx, obj, bus, k, n - 1, p);
        if slot_layer(bus, n - 1) == 0 {
            sprites_leave_high_pens(
                before,
                bus.game,
                gfx,
                all_cells(obj),
                all_cells(obj).len() as int,
                slot_level(n - 1),
                p,
            );
        }
    }
}

/// The picture shows the sprites of the last latched table: what the program does to its
/// live table after that is not seen until the next latch.
pub proof fn sprites_come_from_latched_table(before: Seq<Dot>, gfx: Seq<u8>, obj: Seq<u16>, bus: CpsBusView, later: CpsBusView, k: int)
    requires
        later.game == bus.game,
        later.cps_b == bus.cps_b,
        slot_layer(bus, k) == 0,
    ensures
        slot_drawn(before, gfx, obj, later, k) == slot_drawn(before, gfx, obj, bus, k),
{
}

} // verus!
