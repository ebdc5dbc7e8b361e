//! Laws of the CPS1 picture: what a program puts into graphics RAM, the registers and the
//! graphics ROM is what is seen on the screen.

use crate::bits::low_bits_are_remainders;
use crate::cps::bus::CpsBusView;
use crate::cps::config::{is_sf2, is_sf2_board, is_sf2ce, CpsGame};
use crate::cps::video::{
    all_cells, cell_shown, cells_down_from, cells_drawn, end_from, entry_color, first_page,
    last_sprite, palette_after, priority_mask, scan_index, scroll1, scroll2, scroll3, slot_layer,
    slot_level, slot_tiles, slots_drawn, sprite_cell, sprite_cells, sprite_columns, sprite_rows,
    sprites_drawn, tile_pen, tile_position, tile_shown, Cell, CpsVideoView, Dot, Layer,
};
use crate::raster::{
    bit_at, byte_shows_its_bits, byte_with, is_picture, plane, planes_make_index, Picture, Rgb,
};
use vstd::prelude::*;

verus! {

// ── Tiles ────────────────────────────────────────────────────────────────────

/// One plane of the eight pixels from column `x` of a row, the leftmost in the highest bit.
#[verifier::opaque]
pub open spec fn plane_byte(pic: Picture, x: int, y: int, p: int) -> u8 {
    byte_with(Seq::new(8, |k: int| plane(pic(x + 7 - k, y), p)))
}

/// Eight pixels of a row are stored as four plane bytes, the lowest plane first.
pub open spec fn group_stored(gfx: Seq<u8>, base: int, pic: Picture, x: int, y: int) -> bool {
    &&& 0 <= base
    &&& base + 3 < gfx.len()
    &&& gfx[base] == plane_byte(pic, x, y, 0)
    &&& gfx[base + 1] == plane_byte(pic, x, y, 1)
    &&& gfx[base + 2] == plane_byte(pic, x, y, 2)
    &&& gfx[base + 3] == plane_byte(pic, x, y, 3)
}

/// An 8x8 picture is stored as tile `code`: one half of rows of sixteen pixels, the left one
/// (`half` 0) or the right one.
pub open spec fn tile8_stored(gfx: Seq<u8>, code: int, half: int, pic: Picture) -> bool {
    &&& is_picture(pic, 8, 8)
    &&& forall|y: int| 0 <= y < 8 ==> #[trigger] group_stored(gfx, 64 * code + 8 * y + 4 * half, pic, 0, y)
}

/// A 16x16 picture is stored as tile `code`, row by row from the left.
pub open spec fn tile16_stored(gfx: Seq<u8>, code: int, pic: Picture) -> bool {
    &&& is_picture(pic, 16, 16)
    &&& forall|y: int| 0 <= y < 16 ==> #[trigger] group_stored(gfx, 128 * code + 8 * y, pic, 0, y)
    &&& forall|y: int| 0 <= y < 16 ==> #[trigger] group_stored(gfx, 128 * code + 8 * y + 4, pic, 8, y)
}

/// A 32x32 picture is stored as tile `code`, row by row from the left.
pub open spec fn tile32_stored(gfx: Seq<u8>, code: int, pic: Picture) -> bool {
    &&& is_picture(pic, 32, 32)
    &&& forall|y: int| 0 <= y < 32 ==> #[trigger] group_stored(gfx, 512 * code + 16 * y, pic, 0, y)
    &&& forall|y: int| 0 <= y < 32 ==> #[trigger] group_stored(gfx, 512 * code + 16 * y + 4, pic, 8, y)
    &&& forall|y: int| 0 <= y < 32 ==> #[trigger] group_stored(gfx, 512 * code + 16 * y + 8, pic, 16, y)
    &&& forall|y: int| 0 <= y < 32 ==> #[trigger] group_stored(gfx, 512 * code + 16 * y + 12, pic, 24, y)
}

/// A picture is stored as a tile of its size.
pub open spec fn tile_stored(gfx: Seq<u8>, size: int, code: int, half: int, pic: Picture) -> bool {
    if size == 8 {
        tile8_stored(gfx, code, half, pic)
    } else if size == 16 {
        tile16_stored(gfx, code, pic)
    } else {
        tile32_stored(gfx, code, pic)
    }
}

proof fn plane_byte_shows(pic: Picture, size: int, x: int, y: int, p: int, k: int)
    requires
        is_picture(pic, size, size),
        0 <= x,
        x + 8 <= size,
        0 <= y < size,
        0 <= p < 4,
        0 <= k < 8,
    ensures
        bit_at(plane_byte(pic, x, y, p), 7 - k) == plane(pic(x + k, y), p),
{
    reveal(plane_byte);
    let bits = Seq::new(8, |k: int| plane(pic(x + 7 - k, y), p));
    assert forall|i: int| 0 <= i < 8 implies 0 <= #[trigger] bits[i] <= 1 by {
        assert(0 <= pic(x + 7 - i, y) < 16);
    }
    byte_shows_its_bits(bits, 7 - k);
    assert(x + 7 - (7 - k) == x + k);
}

proof fn group_shows(gfx: Seq<u8>, base: int, pic: Picture, size: int, x: int, y: int, k: int)
    requires
        is_picture(pic, size, size),
        group_stored(gfx, base, pic, x, y),
        0 <= x,
        x + 8 <= size,
        0 <= y < size,
        0 <= k < 8,
    ensures
        bit_at(gfx[base + 3], 7 - k) * 8 + bit_at(gfx[base + 2], 7 - k) * 4 + bit_at(gfx[base + 1], 7 - k) * 2
            + bit_at(gfx[base], 7 - k) == pic(x + k, y),
{
    plane_byte_shows(pic, size, x, y, 0, k);
    plane_byte_shows(pic, size, x, y, 1, k);
    plane_byte_shows(pic, size, x, y, 2, k);
    plane_byte_shows(pic, size, x, y, 3, k);
    assert(0 <= pic(x + k, y) < 16);
    planes_make_index(pic(x + k, y));
}

/// A picture stored as a tile is read back pixel by pixel.
pub proof fn stored_tile_is_its_picture(gfx: Seq<u8>, size: int, code: int, half: int, pic: Picture, x: int, y: int)
    requires
        size == 8 || size == 16 || size == 32,
        0 <= code,
        0 <= half <= 1,
        tile_stored(gfx, size, code, half, pic),
        0 <= x < size,
        0 <= y < size,
    ensures
        tile_pen(gfx, size, code, x, y, half) == pic(x, y),
{
    let x0 = x - x % 8;
    let k = x % 8;
    assert(x0 == 0 || x0 == 8 || x0 == 16 || x0 == 24);
    if size == 8 {
        assert(group_stored(gfx, 64 * code + 8 * y + 4 * half, pic, 0, y));
        group_shows(gfx, 64 * code + 8 * y + 4 * half, pic, size, 0, y, k);
    } else if size == 16 {
        let base = 128 * code + 8 * y + (x / 8) * 4;
        assert(group_stored(gfx, 128 * code + 8 * y, pic, 0, y));
        assert(group_stored(gfx, 128 * code + 8 * y + 4, pic, 8, y));
        group_shows(gfx, base, pic, size, x0, y, k);
    } else {
        let base = 512 * code + 16 * y + (x / 8) * 4;
        assert(group_stored(gfx, 512 * code + 16 * y, pic, 0, y));
        assert(group_stored(gfx, 512 * code + 16 * y + 4, pic, 8, y));
        assert(group_stored(gfx, 512 * code + 16 * y + 8, pic, 16, y));
        assert(group_stored(gfx, 512 * code + 16 * y + 12, pic, 24, y));
        group_shows(gfx, base, pic, size, x0, y, k);
    }
}

/// What lies beyond the graphics data is transparent.
pub proof fn missing_tiles_are_transparent(gfx: Seq<u8>, code: int, x: int, y: int)
    requires
        0 <= x < 16,
        0 <= y < 16,
        128 * code >= gfx.len(),
        0 <= code,
    ensures
        tile_pen(gfx, 16, code, x, y, 0) == 15,
{
}

// ── Sprites ──────────────────────────────────────────────────────────────────

/// A sprite as the table has it, four words each: left, top, tile and attributes (palette,
/// flips, columns and rows of cells).
pub struct SpriteWords {
    pub x: int,
    pub y: int,
    pub code: int,
    pub palette: int,
    pub flipx: bool,
    pub flipy: bool,
    pub columns: int,
    pub rows: int,
}

/// One where a flag is set.
pub open spec fn one_if(b: bool) -> int {
    if b { 1 } else { 0 }
}

impl SpriteWords {
    /// The sprite is entry `i` of the table; bit 7 of its attributes plays no part.
    pub open spec fn stored(self, obj: Seq<u16>, i: int, spare: int) -> bool {
        &&& 0 <= self.x < 0x1_0000
        &&& 0 <= self.y < 0x1_0000
        &&& 0 <= self.code < 0x1_0000
        &&& 0 <= self.palette < 32
        &&& 1 <= self.columns <= 16
        &&& 1 <= self.rows <= 16
        &&& 0 <= spare <= 1
        &&& 0 <= i
        &&& 4 * i + 3 < obj.len()
        &&& obj[4 * i] == self.x
        &&& obj[4 * i + 1] == self.y
        &&& obj[4 * i + 2] == self.code
        &&& obj[4 * i + 3] == self.palette + 32 * one_if(self.flipx) + 64 * one_if(self.flipy) + 128 * spare + 256 * (
        self.columns - 1) + 4096 * (self.rows - 1)
    }

    /// The tile of cell (`bx`, `by`), counted from the top left of the screen: along a row tiles
    /// run on within their group of sixteen, down a column by sixteen; a flipped sprite has them
    /// the other way round.
    pub open spec fn cell_tile(self, bx: int, by: int) -> int {
        let along = if self.flipx { self.columns - 1 - bx } else { bx };
        let down = if self.flipy { self.rows - 1 - by } else { by };
        (self.code / 16) * 16 + (self.code % 16 + along) % 16 + 16 * down
    }
}

proof fn attribute_fields(attr: int, palette: int, fx: int, fy: int, spare: int, c: int, r: int)
    requires
        attr == palette + 32 * fx + 64 * fy + 128 * spare + 256 * c + 4096 * r,
        0 <= palette < 32,
        0 <= fx <= 1,
        0 <= fy <= 1,
        0 <= spare <= 1,
        0 <= c < 16,
        0 <= r < 16,
    ensures
        attr % 32 == palette,
        (attr / 32) % 2 == fx,
        (attr / 64) % 2 == fy,
        (attr / 256) % 16 == c,
        (attr / 4096) % 16 == r,
{
    assert(attr / 32 == fx + 2 * fy + 4 * spare + 8 * c + 128 * r);
    assert(attr / 64 == fy + 2 * spare + 4 * c + 64 * r);
    assert(attr / 256 == c + 16 * r);
    assert(attr / 4096 == r);
}

proof fn wrapped_place(a: int, k: int)
    ensures
        (a % 512 + k * 16) % 512 == (a + 16 * k) % 512,
{
    let q = a / 512;
    let r = (a % 512 + k * 16) / 512;
    let m = (a % 512 + k * 16) % 512;
    assert(a == 512 * q + a % 512);
    quotient_is(a + 16 * k, 512, q + r, m);
}

proof fn quotient_is(n: int, d: int, q: int, r: int)
    requires
        d > 0,
        n == q * d + r,
        0 <= r < d,
    ensures
        n / d == q,
        n % d == r,
{
    vstd::arithmetic::div_mod::lemma_fundamental_div_mod_converse(n, d, q, r);
}

proof fn group_of_sixteen(code: int, along: int)
    ensures
        (code + along) % 16 == (code % 16 + along) % 16,
        code - code % 16 == (code / 16) * 16,
{
}

proof fn table_cell(w: SpriteWords, obj: Seq<u16>, i: int, spare: int, bx: int, by: int)
    requires
        w.stored(obj, i, spare),
        0 <= bx < w.columns,
        0 <= by < w.rows,
    ensures
        sprite_columns(obj, i) == w.columns,
        sprite_rows(obj, i) == w.rows,
        sprite_cell(obj, i, bx, by) == (Cell {
            tile: w.cell_tile(bx, by) as i32,
            palette: w.palette as u16,
            sx: ((w.x + 16 * bx) % 512 - 64) as i32,
            sy: ((w.y + 16 * by) % 512 - 16) as i32,
            flipx: w.flipx,
            flipy: w.flipy,
        }),
{
    attribute_fields(
        obj[4 * i + 3] as int,
        w.palette,
        one_if(w.flipx),
        one_if(w.flipy),
        spare,
        w.columns - 1,
        w.rows - 1,
    );
    wrapped_place(w.x, bx);
    wrapped_place(w.y, by);
    group_of_sixteen(w.code, if w.flipx { w.columns - 1 - bx } else { bx });
}

/// Each cell of a sprite shows the picture of its tile: the sprite's left edge is 64 columns
/// before the screen's and its top 16 lines above, both wrapping at 512; a flipped sprite shows
/// its pictures mirrored.  Pen 15 is transparent.
pub proof fn sprite_cell_shows_its_picture(
    game: CpsGame,
    gfx: Seq<u8>,
    obj: Seq<u16>,
    i: int,
    spare: int,
    w: SpriteWords,
    bx: int,
    by: int,
    pic: Picture,
    px: int,
    py: int,
    level: u8,
    x: int,
    y: int,
)
    requires
        w.stored(obj, i, spare),
        0 <= bx < w.columns,
        0 <= by < w.rows,
        0 <= px < 16,
        0 <= py < 16,
        0 <= x < 384,
        0 <= y < 224,
        (x + 64 - (w.x + 16 * bx + px)) % 512 == 0,
        (y + 16 - (w.y + 16 * by + py)) % 512 == 0,
        0 <= tile_position(game, 1, w.cell_tile(bx, by)),
        tile16_stored(gfx, tile_position(game, 1, w.cell_tile(bx, by)), pic),
    ensures
        ({
            let pen = pic(if w.flipx { 15 - px } else { px }, if w.flipy { 15 - py } else { py });
            cell_shown(game, gfx, sprite_cell(obj, i, bx, by), level, x, y) == (if pen == 15 {
                None
            } else {
                Some(((w.palette * 16 + pen) as u16, level))
            })
        }),
{
    table_cell(w, obj, i, spare, bx, by);
    congruent(x + 64, w.x + 16 * bx, px);
    congruent(y + 16, w.y + 16 * by, py);
    stored_tile_is_its_picture(
        gfx,
        16,
        tile_position(game, 1, w.cell_tile(bx, by)),
        0,
        pic,
        if w.flipx { 15 - px } else { px },
        if w.flipy { 15 - py } else { py },
    );
    assert(0 <= pic(if w.flipx { 15 - px } else { px }, if w.flipy { 15 - py } else { py }) < 16);
}

proof fn congruent(a: int, b: int, d: int)
    requires
        16 <= a < 448,
        0 <= d < 16,
        (a - (b + d)) % 512 == 0,
    ensures
        a == b % 512 + d,
{
}

/// A cell shows nothing outside its sixteen columns and lines.
pub proof fn sprite_cell_ends_at_its_edges(
    game: CpsGame,
    gfx: Seq<u8>,
    obj: Seq<u16>,
    i: int,
    spare: int,
    w: SpriteWords,
    bx: int,
    by: int,
    level: u8,
    x: int,
    y: int,
)
    requires
        w.stored(obj, i, spare),
        0 <= bx < w.columns,
        0 <= by < w.rows,
        0 <= x < 384,
        0 <= y < 224,
        (x + 64 - (w.x + 16 * bx)) % 512 >= 16 || (y + 16 - (w.y + 16 * by)) % 512 >= 16,
    ensures
        cell_shown(game, gfx, sprite_cell(obj, i, bx, by), level, x, y) is None,
{
    table_cell(w, obj, i, spare, bx, by);
    not_within(x + 64, w.x + 16 * bx);
    not_within(y + 16, w.y + 16 * by);
}

proof fn not_within(a: int, b: int)
    requires
        16 <= a < 448,
    ensures
        (a - b) % 512 >= 16 ==> a < b % 512 || a >= b % 512 + 16,
{
}

/// The table ends at the first entry whose attributes are `0xff00` or more; what stands before
/// it is drawn, and so is the first entry in any case.
pub proof fn sprite_table_ends_at_mark(obj: Seq<u16>, e: int)
    requires
        obj.len() == 0x400,
        0 <= e <= 256,
        e < 256 ==> obj[4 * e + 3] >= 0xff00,
        forall|i: int| 0 <= i < e ==> #[trigger] obj[4 * i + 3] < 0xff00,
    ensures
        last_sprite(obj) == (if e == 0 { 0 } else { e - 1 }),
{
    mark_is_first(obj, 0, e);
}

proof fn mark_is_first(obj: Seq<u16>, i: int, e: int)
    requires
        0 <= i <= e <= 256,
        e < 256 ==> obj[4 * e + 3] >= 0xff00,
        forall|i: int| 0 <= i < e ==> #[trigger] obj[4 * i + 3] < 0xff00,
    ensures
        end_from(obj, i) == e,
    decreases e - i,
{
    if i < e {
        assert(obj[4 * i + 3] < 0xff00);
        mark_is_first(obj, i + 1, e);
    }
}

// ── Sprite order ─────────────────────────────────────────────────────────────

/// No cell of a list shows anything at a pixel.
pub open spec fn none_shows(game: CpsGame, gfx: Seq<u8>, cells: Seq<Cell>, level: u8, x: int, y: int) -> bool {
    forall|k: int| 0 <= k < cells.len() ==> cell_shown(game, gfx, #[trigger] cells[k], level, x, y) is None
}

proof fn cells_that_show_nothing(before: Seq<Dot>, game: CpsGame, gfx: Seq<u8>, cells: Seq<Cell>, n: int, m: int, level: u8, x: int, y: int)
    requires
        before.len() == 384 * 224,
        0 <= x < 384,
        0 <= y < 224,
        0 <= n <= m <= cells.len(),
        forall|k: int| n <= k < m ==> cell_shown(game, gfx, #[trigger] cells[k], level, x, y) is None,
    ensures
        cells_drawn(before, game, gfx, cells, m, level)[384 * y + x] == cells_drawn(
            before,
            game,
            gfx,
            cells,
            n,
            level,
        )[384 * y + x],
    decreases m - n,
{
    if n < m {
        cells_that_show_nothing(before, game, gfx, cells, n, m - 1, level, x, y);
        assert(cell_shown(game, gfx, cells[m - 1], level, x, y) is None);
        assert((384 * y + x) % 384 == x && (384 * y + x) / 384 == y);
        assert(0 <= 384 * y + x < 86016);
    }
}

/// Levels of what is drawn never fall, and those of sprites are at most their own.
proof fn cells_keep_level(before: Seq<Dot>, game: CpsGame, gfx: Seq<u8>, cells: Seq<Cell>, n: int, level: u8, p: int)
    requires
        before.len() == 384 * 224,
        0 <= p < 384 * 224,
        before[p].level <= level,
    ensures
        cells_drawn(before, game, gfx, cells, n, level)[p].level <= level,
    decreases n,
{
    if n > 0 {
        cells_keep_level(before, game, gfx, cells, n - 1, level, p);
    }
}

/// The last cell of a list that shows at a pixel is what is seen there.
proof fn last_cell_is_seen(before: Seq<Dot>, game: CpsGame, gfx: Seq<u8>, cells: Seq<Cell>, k: int, level: u8, x: int, y: int)
    requires
        before.len() == 384 * 224,
        0 <= x < 384,
        0 <= y < 224,
        0 <= k < cells.len(),
        cell_shown(game, gfx, cells[k], level, x, y) is Some,
        forall|j: int| k < j < cells.len() ==> cell_shown(game, gfx, #[trigger] cells[j], level, x, y) is None,
        before[384 * y + x].level <= level,
    ensures
        cells_drawn(before, game, gfx, cells, cells.len() as int, level)[384 * y + x].color == cell_shown(
            game,
            gfx,
            cells[k],
            level,
            x,
            y,
        ).unwrap().0,
{
    let p = 384 * y + x;
    assert(p % 384 == x && p / 384 == y);
    assert(0 <= p < 86016);
    cells_that_show_nothing(before, game, gfx, cells, k + 1, cells.len() as int, level, x, y);
    cells_keep_level(before, game, gfx, cells, k, level, p);
}

/// Every cell of a list of sprites is a cell of one of them.
proof fn cells_are_of_sprites(obj: Seq<u16>, i: int, k: int) -> (r: (int, int, int))
    requires
        0 <= k < cells_down_from(obj, i).len(),
    ensures
        0 <= r.0 <= i,
        0 <= r.1 < sprite_columns(obj, r.0),
        0 <= r.2 < sprite_rows(obj, r.0),
        cells_down_from(obj, i)[k] == sprite_cell(obj, r.0, r.1, r.2),
    decreases i + 1,
{
    let n = sprite_cells(obj, i).len() as int;
    let rows = sprite_rows(obj, i);
    let columns = sprite_columns(obj, i);
    if k < n {
        assert(1 <= rows <= 16 && 1 <= columns <= 16);
        cell_number(k, rows, columns);
        (i, k / rows, k % rows)
    } else {
        cells_are_of_sprites(obj, i - 1, k - n)
    }
}

proof fn cell_number(k: int, rows: int, columns: int)
    requires
        0 < rows,
        0 < columns,
        0 <= k < columns * rows,
    ensures
        0 <= k / rows < columns,
        0 <= k % rows < rows,
{
    assert(0 <= k / rows < columns) by (nonlinear_arith)
        requires
            0 < rows,
            0 <= k < columns * rows,
    ;
}

/// Where the cells of sprite `i` stand among those that are drawn.
proof fn sprite_among_cells(obj: Seq<u16>, last: int, i: int) -> (at: int)
    requires
        0 <= i <= last,
    ensures
        0 <= at,
        cells_down_from(obj, last).len() == at + sprite_cells(obj, i).len() + cells_down_from(obj, i - 1).len(),
        forall|k: int|
            0 <= k < sprite_cells(obj, i).len() ==> cells_down_from(obj, last)[at + k] == #[trigger] sprite_cells(
                obj,
                i,
            )[k],
        forall|k: int|
            0 <= k < cells_down_from(obj, i - 1).len() ==> cells_down_from(obj, last)[at + sprite_cells(obj, i).len()
                + k] == #[trigger] cells_down_from(obj, i - 1)[k],
    decreases last - i,
{
    if last == i {
        0
    } else {
        let at = sprite_among_cells(obj, last - 1, i);
        let n = sprite_cells(obj, last).len() as int;
        let all = cells_down_from(obj, last);
        let rest = cells_down_from(obj, last - 1);
        assert(all =~= sprite_cells(obj, last) + rest);
        assert forall|k: int| 0 <= k < sprite_cells(obj, i).len() implies all[n + at + k] == #[trigger] sprite_cells(
            obj,
            i,
        )[k] by {
            assert(rest[at + k] == sprite_cells(obj, i)[k]);
            assert(all[n + (at + k)] == rest[at + k]);
        }
        assert forall|k: int| 0 <= k < cells_down_from(obj, i - 1).len() implies all[n + at + sprite_cells(
            obj,
            i,
        ).len() + k] == #[trigger] cells_down_from(obj, i - 1)[k] by {
            let m = at + sprite_cells(obj, i).len() + k;
            assert(rest[m] == cells_down_from(obj, i - 1)[k]);
            assert(all[n + m] == rest[m]);
        }
        n + at
    }
}

/// A sprite covers those that stand after it in the table.  Where a cell of sprite `i` shows and
/// neither another cell of it nor a sprite before it does, that cell is seen, provided nothing
/// of a higher level was drawn before the sprites.
pub proof fn earlier_sprites_cover_later_ones(
    before: Seq<Dot>,
    game: CpsGame,
    gfx: Seq<u8>,
    obj: Seq<u16>,
    i: int,
    bx: int,
    by: int,
    level: u8,
    x: int,
    y: int,
)
    requires
        before.len() == 384 * 224,
        0 <= x < 384,
        0 <= y < 224,
        0 <= i <= last_sprite(obj),
        0 <= bx < sprite_columns(obj, i),
        0 <= by < sprite_rows(obj, i),
        before[384 * y + x].level <= level,
        cell_shown(game, gfx, sprite_cell(obj, i, bx, by), level, x, y) is Some,
        forall|cx: int, cy: int|
            0 <= cx < sprite_columns(obj, i) && 0 <= cy < sprite_rows(obj, i) && !(cx == bx && cy == by)
                ==> cell_shown(game, gfx, #[trigger] sprite_cell(obj, i, cx, cy), level, x, y) is None,
        forall|j: int, cx: int, cy: int|
            0 <= j < i && 0 <= cx < sprite_columns(obj, j) && 0 <= cy < sprite_rows(obj, j) ==> cell_shown(
                game,
                gfx,
                #[trigger] sprite_cell(obj, j, cx, cy),
                level,
                x,
                y,
            ) is None,
    ensures
        sprites_drawn(before, game, gfx, obj, level)[384 * y + x].color == cell_shown(
            game,
            gfx,
            sprite_cell(obj, i, bx, by),
            level,
            x,
            y,
        ).unwrap().0,
{
    let cells = all_cells(obj);
    let mine = sprite_cells(obj, i);
    let below = cells_down_from(obj, i - 1);
    let rows = sprite_rows(obj, i);
    let columns = sprite_columns(obj, i);
    let at = sprite_among_cells(obj, last_sprite(obj), i);
    let k = bx * rows + by;
    assert(1 <= rows <= 16 && 1 <= columns <= 16);
    cell_place(bx, by, rows, columns);
    assert(mine[k] == sprite_cell(obj, i, bx, by));
    assert(cells[at + k] == mine[k]);
    assert forall|j: int| at + k < j < cells.len() implies cell_shown(
        game,
        gfx,
        #[trigger] cells[j],
        level,
        x,
        y,
    ) is None by {
        if j - at < mine.len() {
            let m = j - at;
            assert(cells[at + m] == mine[m]);
            cell_number(m, rows, columns);
            let (cx, cy) = (m / rows, m % rows);
            assert(mine[m] == sprite_cell(obj, i, cx, cy));
            if cx == bx && cy == by {
                vstd::arithmetic::div_mod::lemma_fundamental_div_mod(m, rows);
                assert(m == bx * rows + by) by (nonlinear_arith)
                    requires
                        m == rows * (m / rows) + m % rows,
                        m / rows == bx,
                        m % rows == by,
                ;
            }
        } else {
            let m = j - at - mine.len();
            assert(cells[at + mine.len() + m] == below[m]);
            let (q, cx, cy) = cells_are_of_sprites(obj, i - 1, m);
            assert(below[m] == sprite_cell(obj, q, cx, cy));
        }
    }
    last_cell_is_seen(before, game, gfx, cells, at + k, level, x, y);
}

proof fn cell_place(bx: int, by: int, rows: int, columns: int)
    requires
        0 <= bx < columns,
        0 <= by < rows,
    ensures
        0 <= bx * rows + by < columns * rows,
        (bx * rows + by) / rows == bx,
        (bx * rows + by) % rows == by,
{
    assert(0 <= bx * rows + by < columns * rows) by (nonlinear_arith)
        requires
            0 <= bx < columns,
            0 <= by < rows,
    ;
    vstd::arithmetic::div_mod::lemma_fundamental_div_mod_converse(bx * rows + by, rows, bx, by);
}

// ── Tile layers ──────────────────────────────────────────────────────────────

/// Tile layer `n`, as a slot of some level draws it.
pub open spec fn layer_of(bus: CpsBusView, n: int, level: u8) -> Layer {
    if n == 1 {
        scroll1(bus, level)
    } else if n == 2 {
        scroll2(bus, level)
    } else {
        scroll3(bus, level)
    }
}

/// Edge of a tile of layer `n`.
pub open spec fn edge_of(n: int) -> int {
    if n == 1 {
        8
    } else if n == 2 {
        16
    } else {
        32
    }
}

/// Kind of graphics of layer `n`.
pub open spec fn kind_of(n: int) -> i32 {
    if n == 1 {
        2
    } else if n == 2 {
        4
    } else {
        8
    }
}

/// A base register points at graphics RAM in units of 256 bytes, rounded down to the size of
/// what it points at and repeating every 256 KB; words are two bytes.
pub open spec fn points_at(bus: CpsBusView, reg: int, size: int, at: int) -> bool {
    2 * at == (bus.cps_a[reg] * 256 - (bus.cps_a[reg] * 256) % size) % 0x4_0000
}

/// The word of a map that holds cell (`col`, `row`): the map has 64 columns and 64 rows, one
/// column after the other within each band of rows.
pub open spec fn map_index(n: int, col: int, row: int) -> int {
    let band = if n == 1 {
        32int
    } else if n == 2 {
        16int
    } else {
        8int
    };
    (row / band) * (64 * band) + col * band + row % band
}

/// A signed register.
pub open spec fn is_signed(word: u16, v: int) -> bool {
    -0x8000 <= v < 0x8000 && (v - word) % 0x1_0000 == 0
}

/// The horizontal scroll of a screen row: the register's, and for the second layer, while the
/// video control says so, what a table has for that row besides.
pub open spec fn scrolls_by(bus: CpsBusView, n: int, table: int, y: int, h: int) -> bool {
    exists|v: int| #[trigger]
        is_signed(bus.cps_a[4 + 2 * n], v) && h == v + (if n == 2 && bus.cps_a[0x11] % 2 == 1 {
            bus.gfx_word(table + (y + 16 + bus.cps_a[0x10]) % 1024) as int
        } else {
            0
        })
}

proof fn signed_register(word: u16, v: int)
    requires
        is_signed(word, v),
    ensures
        (word as i16) as int == v,
{
    let s = word as i16;
    assert((word < 0x8000 ==> s == word) && (word >= 0x8000 ==> s == word - 0x1_0000)) by (bit_vector)
        requires
            s == word as i16,
    ;
}

proof fn base_points(bus: CpsBusView, reg: int, size: u32, at: int)
    requires
        size == 0x4000 || size == 0x800 || size == 0x400,
        points_at(bus, reg, size as int, at),
    ensures
        bus.base(reg, size) == at,
{
    let a = (bus.cps_a[reg] * 256) as u32;
    let m = (size - 1) as u32;
    assert(a & !0x3fffu32 == a - a % 0x4000 && a & !0x7ffu32 == a - a % 0x800 && a & !0x3ffu32 == a - a % 0x400
        && forall|b: u32| #[trigger] (b & 0x3ffff) == b % 0x4_0000) by (bit_vector);
}

proof fn cell_of_8(w: int, c: int, p: int)
    requires
        0 <= c < 64,
        0 <= p < 8,
        (w - (8 * c + p)) % 512 == 0,
    ensures
        w % 8 == p,
        (w / 8) % 64 == c,
        (w / 8) % 32 == c % 32,
        ((w / 8) / 32) % 2 == c / 32,
        (w / 8) % 2 == c % 2,
{
    let q = (w - (8 * c + p)) / 512;
    assert(w == 512 * q + 8 * c + p);
    quotient_is(w, 8, 64 * q + c, p);
    quotient_is(64 * q + c, 64, q, c);
    quotient_is(64 * q + c, 32, 2 * q + c / 32, c % 32);
    quotient_is(2 * q + c / 32, 2, q, c / 32);
    quotient_is(64 * q + c, 2, 32 * q + c / 2, c % 2);
}

proof fn cell_of_16(w: int, c: int, p: int)
    requires
        0 <= c < 64,
        0 <= p < 16,
        (w - (16 * c + p)) % 1024 == 0,
    ensures
        w % 16 == p,
        (w / 16) % 64 == c,
        (w / 16) % 16 == c % 16,
        ((w / 16) / 16) % 4 == c / 16,
{
    let q = (w - (16 * c + p)) / 1024;
    assert(w == 1024 * q + 16 * c + p);
    quotient_is(w, 16, 64 * q + c, p);
    quotient_is(64 * q + c, 64, q, c);
    quotient_is(64 * q + c, 16, 4 * q + c / 16, c % 16);
    quotient_is(4 * q + c / 16, 4, q, c / 16);
}

proof fn cell_of_32(w: int, c: int, p: int)
    requires
        0 <= c < 64,
        0 <= p < 32,
        (w - (32 * c + p)) % 2048 == 0,
    ensures
        w % 32 == p,
        (w / 32) % 64 == c,
        (w / 32) % 8 == c % 8,
        ((w / 32) / 8) % 8 == c / 8,
{
    let q = (w - (32 * c + p)) / 2048;
    assert(w == 2048 * q + 32 * c + p);
    quotient_is(w, 32, 64 * q + c, p);
    quotient_is(64 * q + c, 64, q, c);
    quotient_is(64 * q + c, 8, 8 * q + c / 8, c % 8);
    quotient_is(8 * q + c / 8, 8, q, c / 8);
}

proof fn map_cell(n: int, wx: int, wy: int, col: int, row: int, px: int, py: int)
    requires
        1 <= n <= 3,
        0 <= col < 64,
        0 <= row < 64,
        0 <= px < edge_of(n),
        0 <= py < edge_of(n),
        (wx - (edge_of(n) * col + px)) % (64 * edge_of(n)) == 0,
        (wy - (edge_of(n) * row + py)) % (64 * edge_of(n)) == 0,
    ensures
        wx % edge_of(n) == px,
        wy % edge_of(n) == py,
        scan_index(edge_of(n), wy / edge_of(n), wx / edge_of(n)) == map_index(n, col, row),
        n == 1 ==> (wx / 8) % 2 == col % 2,
{
    reveal(scan_index);
    if n == 1 {
        cell_of_8(wx, col, px);
        cell_of_8(wy, row, py);
    } else if n == 2 {
        cell_of_16(wx, col, px);
        cell_of_16(wy, row, py);
    } else {
        cell_of_32(wx, col, px);
        cell_of_32(wy, row, py);
    }
}

/// The attributes of a map cell.
pub struct CellAttributes {
    pub palette: int,
    pub flipx: bool,
    pub flipy: bool,
    /// The bits above, which play no part.
    pub spare: int,
}

impl CellAttributes {
    pub open spec fn is_word(self, word: u16) -> bool {
        &&& 0 <= self.palette < 32
        &&& 0 <= self.spare < 512
        &&& word == self.palette + 32 * one_if(self.flipx) + 64 * one_if(self.flipy) + 128 * self.spare
    }
}

/// Each cell of a tile layer's map shows the picture of its tile.  The map is 64 cells wide and
/// high and repeats; its pixel (0, 0) is 64 columns left of and 16 lines above the screen's while
/// the scroll registers are zero, and growing registers move the picture to the left and up.
/// Layer `n` has palettes from `32 * n` on; pen 15 is transparent, and pens that the priority
/// mask selects sit above the sprites.
pub proof fn tile_layer_shows_its_pictures(
    gfx: Seq<u8>,
    bus: CpsBusView,
    n: int,
    level: u8,
    map: int,
    table: int,
    h: int,
    v: int,
    col: int,
    row: int,
    attr: CellAttributes,
    pic: Picture,
    px: int,
    py: int,
    x: int,
    y: int,
)
    requires
        1 <= n <= 3,
        0 <= x < 384,
        0 <= y < 224,
        points_at(bus, n, 0x4000, map),
        points_at(bus, 4, 0x800, table),
        scrolls_by(bus, n, table, y, h),
        is_signed(bus.cps_a[5 + 2 * n], v),
        0 <= col < 64,
        0 <= row < 64,
        0 <= px < edge_of(n),
        0 <= py < edge_of(n),
        (x + 64 + h - (edge_of(n) * col + px)) % (64 * edge_of(n)) == 0,
        (y + 16 + v - (edge_of(n) * row + py)) % (64 * edge_of(n)) == 0,
        attr.is_word(bus.gfx_word(map + 2 * map_index(n, col, row) + 1)),
        ({
            let word = bus.gfx_word(map + 2 * map_index(n, col, row));
            let tile = tile_position(bus.game, kind_of(n), if n == 3 { word as int % 0x4000 } else { word as int });
            0 <= tile && tile_stored(gfx, edge_of(n), tile, if n == 1 { col % 2 } else { 0 }, pic)
        }),
    ensures
        ({
            let pen = pic(
                if attr.flipx { edge_of(n) - 1 - px } else { px },
                if attr.flipy { edge_of(n) - 1 - py } else { py },
            );
            tile_shown(gfx, bus, layer_of(bus, n, level), x, y) == (if pen == 15 {
                None
            } else {
                Some(
                    (
                        ((32 * n + attr.palette) * 16 + pen) as u16,
                        if (priority_mask(bus) >> (pen as u16)) & 1 != 0 { 200u8 } else { level },
                    ),
                )
            })
        }),
{
    let hv = choose|hv: int| #[trigger]
        is_signed(bus.cps_a[4 + 2 * n], hv) && h == hv + (if n == 2 && bus.cps_a[0x11] % 2 == 1 {
            bus.gfx_word(table + (y + 16 + bus.cps_a[0x10]) % 1024) as int
        } else {
            0
        });
    signed_register(bus.cps_a[4 + 2 * n], hv);
    signed_register(bus.cps_a[5 + 2 * n], v);
    base_points(bus, n, 0x4000, map);
    base_points(bus, 4, 0x800, table);
    let word = bus.gfx_word(map + 2 * map_index(n, col, row));
    let aw = bus.gfx_word(map + 2 * map_index(n, col, row) + 1);
    let vc = bus.cps_a[0x11];
    assert(word & 0x3fff == word % 0x4000 && vc & 0x01 == vc % 2) by {
        low_bits_are_remainders();
    }
    assert(word & 0xffff == word) by (bit_vector);
    map_cell(n, x + 64 + h, y + 16 + v, col, row, px, py);
    cell_fields(aw as int, attr);
    let l = layer_of(bus, n, level);
    let e = edge_of(n);
    assert(l.size == e && l.base == map);
    assert(crate::cps::video::row_scroll(bus, l, y) == h);
    let tile = tile_position(bus.game, kind_of(n), if n == 3 { word as int % 0x4000 } else { word as int });
    let (tx, ty) = (if attr.flipx { e - 1 - px } else { px }, if attr.flipy { e - 1 - py } else { py });
    stored_tile_is_its_picture(gfx, e, tile, if n == 1 { col % 2 } else { 0 }, pic, tx, ty);
    assert(0 <= pic(tx, ty) < 16);
}

proof fn cell_fields(aw: int, attr: CellAttributes)
    requires
        0 <= attr.palette < 32,
        0 <= attr.spare < 512,
        aw == attr.palette + 32 * one_if(attr.flipx) + 64 * one_if(attr.flipy) + 128 * attr.spare,
    ensures
        aw % 32 == attr.palette,
        ((aw / 32) % 2 == 1) == attr.flipx,
        ((aw / 64) % 2 == 1) == attr.flipy,
{
    assert(aw / 32 == one_if(attr.flipx) + 2 * one_if(attr.flipy) + 4 * attr.spare);
    assert(aw / 64 == one_if(attr.flipy) + 2 * attr.spare);
}

// ── Colours ──────────────────────────────────────────────────────────────────

/// A channel of four bits at a brightness of four bits: full at the highest brightness, a third
/// of that at the lowest, and in even steps between, rounded down.
pub open spec fn is_channel(nibble: int, bright: int, c: u8) -> bool {
    45 * c <= 17 * nibble * (15 + 2 * bright) < 45 * (c + 1)
}

/// A palette word is brightness, red, green and blue, four bits each from the top.
pub proof fn palette_word_shows_its_channels(w: u16, bright: int, r: int, g: int, b: int)
    requires
        0 <= bright < 16,
        0 <= r < 16,
        0 <= g < 16,
        0 <= b < 16,
        w == 4096 * bright + 256 * r + 16 * g + b,
    ensures
        is_channel(r, bright, entry_color(w).0),
        is_channel(g, bright, entry_color(w).1),
        is_channel(b, bright, entry_color(w).2),
{
    assert(w / 4096 == bright && (w / 256) % 16 == r && (w / 16) % 16 == g && w % 16 == b) by {
        quotient_is(w as int, 4096, bright, 256 * r + 16 * g + b);
        quotient_is(w as int, 256, 16 * bright + r, 16 * g + b);
        quotient_is(w as int, 16, 256 * bright + 16 * r + g, b);
        quotient_is(16 * bright + r, 16, bright, r);
        quotient_is(256 * bright + 16 * r + g, 16, 16 * bright + r, g);
    }
    channel_fits(r, bright);
    channel_fits(g, bright);
    channel_fits(b, bright);
}

proof fn channel_fits(nibble: int, bright: int)
    requires
        0 <= nibble < 16,
        0 <= bright < 16,
    ensures
        is_channel(nibble, bright, crate::cps::video::channel(nibble, 15 + 2 * bright)),
{
    let v = nibble * 17 * (15 + 2 * bright);
    assert(v == 17 * nibble * (15 + 2 * bright)) by (nonlinear_arith)
        requires
            v == nibble * 17 * (15 + 2 * bright),
    ;
    assert(0 <= v <= 45 * 255) by (nonlinear_arith)
        requires
            v == nibble * 17 * (15 + 2 * bright),
            0 <= nibble < 16,
            0 <= bright < 16,
    ;
}

/// Bit `q` of a word is set.
pub open spec fn has_bit(word: u16, q: int) -> bool {
    word & (1u16 << (q as u16)) != 0
}

/// The palette is copied page by page, 512 entries each: those pages whose bit is set in the
/// palette control, from consecutive places of graphics RAM counted from the lowest such page.
/// The others keep their colours.
pub proof fn palette_pages_are_copied(old_palette: Seq<Rgb>, bus: CpsBusView, at: int, first: int, page: int, k: int)
    requires
        is_sf2_board(bus.game),
        points_at(bus, 5, 0x400, at),
        0 <= page < 6,
        0 <= k < 512,
        0 <= first <= 6,
        first < 6 ==> has_bit(bus.cps_b[24], first),
        forall|q: int| 0 <= q < first ==> !#[trigger] has_bit(bus.cps_b[24], q),
    ensures
        palette_after(old_palette, bus).len() == 6 * 512,
        palette_after(old_palette, bus)[512 * page + k] == (if has_bit(bus.cps_b[24], page) {
            entry_color(bus.gfx_word(at + 512 * (page - first) + k))
        } else {
            old_palette[512 * page + k]
        }),
{
    base_points(bus, 5, 0x400, at);
    quotient_is(512 * page + k, 512, page, k);
    first_page_is(bus.cps_b[24], 0, first);
}

proof fn first_page_is(bits: u16, from: int, first: int)
    requires
        0 <= from <= first <= 6,
        first < 6 ==> has_bit(bits, first),
        forall|q: int| from <= q < first ==> !#[trigger] has_bit(bits, q),
    ensures
        first_page(bits, from) == first,
    decreases first - from,
{
    if from < first {
        assert(!has_bit(bits, from));
        first_page_is(bits, from + 1, first);
    }
}

// ── Layers ───────────────────────────────────────────────────────────────────

/// The four slots of the layer control, from bit 6 on two bits each, say what is drawn, bottom
/// first: 0 the sprites, 1 to 3 the tile layers.
pub proof fn layer_control_orders_layers(bus: CpsBusView, low: int, l0: int, l1: int, l2: int, l3: int, high: int)
    requires
        is_sf2_board(bus.game),
        0 <= low < 64,
        0 <= l0 < 4,
        0 <= l1 < 4,
        0 <= l2 < 4,
        0 <= l3 < 4,
        0 <= high < 4,
        bus.cps_b[19] == low + 64 * l0 + 256 * l1 + 1024 * l2 + 4096 * l3 + 16384 * high,
    ensures
        slot_layer(bus, 0) == l0,
        slot_layer(bus, 1) == l1,
        slot_layer(bus, 2) == l2,
        slot_layer(bus, 3) == l3,
{
    let lc = bus.cps_b[19] as int;
    quotient_is(lc, 64, l0 + 4 * l1 + 16 * l2 + 64 * l3 + 256 * high, low);
    quotient_is(l0 + 4 * l1 + 16 * l2 + 64 * l3 + 256 * high, 4, l1 + 4 * l2 + 16 * l3 + 64 * high, l0);
    quotient_is(lc, 256, l1 + 4 * l2 + 16 * l3 + 64 * high, low + 64 * l0);
    quotient_is(l1 + 4 * l2 + 16 * l3 + 64 * high, 4, l2 + 4 * l3 + 16 * high, l1);
    quotient_is(lc, 1024, l2 + 4 * l3 + 16 * high, low + 64 * l0 + 256 * l1);
    quotient_is(l2 + 4 * l3 + 16 * high, 4, l3 + 4 * high, l2);
    quotient_is(lc, 4096, l3 + 4 * high, low + 64 * l0 + 256 * l1 + 1024 * l2);
    quotient_is(l3 + 4 * high, 4, high, l3);
}

/// Bit of the layer control that switches tile layer `n` of a game on.
pub open spec fn enable_bit(game: CpsGame, n: int) -> u16 {
    if is_sf2(game) {
        if n == 1 {
            0x08
        } else if n == 2 {
            0x10
        } else {
            0x20
        }
    } else {
        if n == 1 {
            0x02
        } else if n == 2 {
            0x04
        } else {
            0x08
        }
    }
}

/// A slot draws its tile layer while the layer control has it on and, for the second and third
/// layer, the video control (bits 2 and 3) too.  Each slot draws two levels above the one before.
/// The priority mask is the one of the first tile group.
pub proof fn enabled_layers_are_drawn(bus: CpsBusView, k: int)
    requires
        is_sf2(bus.game) || is_sf2ce(bus.game),
        0 <= k < 4,
    ensures
        ({
            let n = slot_layer(bus, k);
            let on = bus.cps_b[19] & enable_bit(bus.game, n) != 0 && (n == 2 ==> bus.cps_a[0x11] & 0x04 != 0) && (n
                == 3 ==> bus.cps_a[0x11] & 0x08 != 0);
            &&& 0 <= n < 4
            &&& n > 0 && on ==> slot_tiles(bus, k) == Some(layer_of(bus, n, (2 * k + 2) as u8))
            &&& n == 0 || !on ==> slot_tiles(bus, k) is None
        }),
        priority_mask(bus) == bus.cps_b[20],
{
    if is_sf2(bus.game) {
        reveal_strlit("sf2");
    } else {
        reveal_strlit("sf2");
        reveal_strlit("sf2ce");
        assert(bus.game.name@.len() == 5);
    }
}

/// What slot `k` shows at a pixel is nothing.
pub open spec fn slot_shows_nothing(gfx: Seq<u8>, obj: Seq<u16>, bus: CpsBusView, k: int, x: int, y: int) -> bool {
    if slot_layer(bus, k) == 0 {
        none_shows(bus.game, gfx, all_cells(obj), (2 * k + 2) as u8, x, y)
    } else {
        slot_tiles(bus, k) matches Some(l) ==> tile_shown(gfx, bus, l, x, y) is None
    }
}

proof fn empty_slots_change_nothing(gfx: Seq<u8>, obj: Seq<u16>, bus: CpsBusView, k: int, n: int, x: int, y: int)
    requires
        0 <= k <= n <= 4,
        0 <= x < 384,
        0 <= y < 224,
        forall|j: int| k <= j < n ==> #[trigger] slot_shows_nothing(gfx, obj, bus, j, x, y),
    ensures
        slots_drawn(gfx, obj, bus, n)[384 * y + x] == slots_drawn(gfx, obj, bus, k)[384 * y + x],
        slots_drawn(gfx, obj, bus, n).len() == 384 * 224,
    decreases n,
{
    slots_have_size(gfx, obj, bus, n);
    if k < n {
        empty_slots_change_nothing(gfx, obj, bus, k, n - 1, x, y);
        assert(slot_shows_nothing(gfx, obj, bus, n - 1, x, y));
        let before = slots_drawn(gfx, obj, bus, n - 1);
        pixel_place(x, y);
        if slot_layer(bus, n - 1) == 0 {
            let cells = all_cells(obj);
            cells_that_show_nothing(
                before,
                bus.game,
                gfx,
                cells,
                0,
                cells.len() as int,
                slot_level(n - 1),
                x,
                y,
            );
        }
    }
}

proof fn pixel_place(x: int, y: int)
    requires
        0 <= x < 384,
        0 <= y < 224,
    ensures
        (384 * y + x) % 384 == x,
        (384 * y + x) / 384 == y,
        0 <= 384 * y + x < 86016,
{
}

proof fn slots_have_size(gfx: Seq<u8>, obj: Seq<u16>, bus: CpsBusView, n: int)
    requires
        0 <= n <= 4,
    ensures
        slots_drawn(gfx, obj, bus, n).len() == 384 * 224,
    decreases n,
{
    if n > 0 {
        slots_have_size(gfx, obj, bus, n - 1);
        let before = slots_drawn(gfx, obj, bus, n - 1);
        if slot_layer(bus, n - 1) == 0 {
            cells_have_size(before, bus.game, gfx, all_cells(obj), all_cells(obj).len() as int, slot_level(n - 1));
        }
    }
}

proof fn cells_have_size(before: Seq<Dot>, game: CpsGame, gfx: Seq<u8>, cells: Seq<Cell>, n: int, level: u8)
    requires
        before.len() == 384 * 224,
    ensures
        cells_drawn(before, game, gfx, cells, n, level).len() == 384 * 224,
    decreases n,
{
    if n > 0 {
        cells_have_size(before, game, gfx, cells, n - 1, level);
    }
}

proof fn levels_stay_low(gfx: Seq<u8>, obj: Seq<u16>, bus: CpsBusView, n: int, p: int)
    requires
        0 <= n <= 4,
        0 <= p < 384 * 224,
    ensures
        slots_drawn(gfx, obj, bus, n)[p].level <= 2 * n || slots_drawn(gfx, obj, bus, n)[p].level == 200,
    decreases n,
{
    if n > 0 {
        levels_stay_low(gfx, obj, bus, n - 1, p);
        slots_have_size(gfx, obj, bus, n - 1);
        let before = slots_drawn(gfx, obj, bus, n - 1);
        let level = slot_level(n - 1);
        if slot_layer(bus, n - 1) == 0 {
            let cells = all_cells(obj);
            if before[p].level <= level {
                cells_keep_level(before, bus.game, gfx, cells, cells.len() as int, level, p);
            } else {
                higher_level_stays(before, bus.game, gfx, cells, cells.len() as int, level, p);
            }
        }
    }
}

/// Cells do not touch what is of a higher level.
proof fn higher_level_stays(before: Seq<Dot>, game: CpsGame, gfx: Seq<u8>, cells: Seq<Cell>, n: int, level: u8, p: int)
    requires
        before.len() == 384 * 224,
        0 <= p < 384 * 224,
        before[p].level > level,
    ensures
        cells_drawn(before, game, gfx, cells, n, level)[p] == before[p],
    decreases n,
{
    if n > 0 {
        higher_level_stays(before, game, gfx, cells, n - 1, level, p);
    }
}

/// The colour of a pixel by its palette index.
pub open spec fn seen(v: CpsVideoView, bus: CpsBusView, index: int) -> Rgb {
    palette_after(v.palette, bus)[index]
}

/// The screen, 384 pixels a row from the top left.  A tile layer's pixel covers what earlier slots
/// drew, unless that is a pen above the sprites and the pixel is none, and is seen where later
/// slots show nothing.
pub proof fn tiles_cover_earlier_slots(v: CpsVideoView, bus: CpsBusView, k: int, n: int, color: u16, level: u8, x: int, y: int)
    requires
        0 <= k < 4,
        1 <= n <= 3,
        0 <= x < 384,
        0 <= y < 224,
        slot_layer(bus, k) == n,
        slot_tiles(bus, k) == Some(layer_of(bus, n, (2 * k + 2) as u8)),
        tile_shown(v.gfx, bus, layer_of(bus, n, (2 * k + 2) as u8), x, y) == Some((color, level)),
        color < 0xc00,
        level == 200 || slots_drawn(v.gfx, v.obj, bus, k)[384 * y + x].level != 200,
        forall|j: int| k < j < 4 ==> #[trigger] slot_shows_nothing(v.gfx, v.obj, bus, j, x, y),
    ensures
        v.picture(bus).len() == 384 * 224,
        v.picture(bus)[384 * y + x] == seen(v, bus, color as int),
{
    let p = 384 * y + x;
    pixel_place(x, y);
    levels_stay_low(v.gfx, v.obj, bus, k, p);
    shown_level(v.gfx, bus, layer_of(bus, n, (2 * k + 2) as u8), x, y);
    empty_slots_change_nothing(v.gfx, v.obj, bus, k + 1, 4, x, y);
}

proof fn shown_level(gfx: Seq<u8>, bus: CpsBusView, l: Layer, x: int, y: int)
    ensures
        tile_shown(gfx, bus, l, x, y) matches Some((c, level)) ==> level == 200 || level == l.slot_level,
{
}

/// A sprite's pixel covers what earlier slots drew, unless that is a pen above the sprites, and is
/// seen where later slots show nothing.
pub proof fn sprites_cover_earlier_slots(
    v: CpsVideoView,
    bus: CpsBusView,
    k: int,
    i: int,
    bx: int,
    by: int,
    color: u16,
    x: int,
    y: int,
)
    requires
        0 <= k < 4,
        0 <= x < 384,
        0 <= y < 224,
        slot_layer(bus, k) == 0,
        0 <= i <= last_sprite(v.obj),
        0 <= bx < sprite_columns(v.obj, i),
        0 <= by < sprite_rows(v.obj, i),
        cell_shown(bus.game, v.gfx, sprite_cell(v.obj, i, bx, by), (2 * k + 2) as u8, x, y) == Some(
            (color, (2 * k + 2) as u8),
        ),
        color < 0xc00,
        slots_drawn(v.gfx, v.obj, bus, k)[384 * y + x].level != 200,
        forall|cx: int, cy: int|
            0 <= cx < sprite_columns(v.obj, i) && 0 <= cy < sprite_rows(v.obj, i) && !(cx == bx && cy == by)
                ==> cell_shown(
                bus.game,
                v.gfx,
                #[trigger] sprite_cell(v.obj, i, cx, cy),
                (2 * k + 2) as u8,
                x,
                y,
            ) is None,
        forall|j: int, cx: int, cy: int|
            0 <= j < i && 0 <= cx < sprite_columns(v.obj, j) && 0 <= cy < sprite_rows(v.obj, j) ==> cell_shown(
                bus.game,
                v.gfx,
                #[trigger] sprite_cell(v.obj, j, cx, cy),
                (2 * k + 2) as u8,
                x,
                y,
            ) is None,
        forall|j: int| k < j < 4 ==> #[trigger] slot_shows_nothing(v.gfx, v.obj, bus, j, x, y),
    ensures
        v.picture(bus)[384 * y + x] == seen(v, bus, color as int),
{
    let p = 384 * y + x;
    pixel_place(x, y);
    levels_stay_low(v.gfx, v.obj, bus, k, p);
    slots_have_size(v.gfx, v.obj, bus, k);
    earlier_sprites_cover_later_ones(
        slots_drawn(v.gfx, v.obj, bus, k),
        bus.game,
        v.gfx,
        v.obj,
        i,
        bx,
        by,
        (2 * k + 2) as u8,
        x,
        y,
    );
    empty_slots_change_nothing(v.gfx, v.obj, bus, k + 1, 4, x, y);
}

/// Where no slot shows anything the last palette entry is seen.
pub proof fn empty_screen_shows_last_entry(v: CpsVideoView, bus: CpsBusView, x: int, y: int)
    requires
        0 <= x < 384,
        0 <= y < 224,
        forall|j: int| 0 <= j < 4 ==> #[trigger] slot_shows_nothing(v.gfx, v.obj, bus, j, x, y),
    ensures
        v.picture(bus)[384 * y + x] == seen(v, bus, 0xbff),
{
    pixel_place(x, y);
    empty_slots_change_nothing(v.gfx, v.obj, bus, 0, 4, x, y);
}

/// The sprite table that is latched is the 2 KB of graphics RAM that the first video register
/// points at.
pub proof fn latched_table_is_where_register_points(bus: CpsBusView, at: int, k: int)
    requires
        points_at(bus, 0, 0x800, at),
        0 <= k < 0x400,
    ensures
        CpsVideoView::live_obj(bus).len() == 0x400,
        CpsVideoView::live_obj(bus)[k] == bus.gfx_word(at + k),
{
    base_points(bus, 0, 0x800, at);
}

} // verus!
