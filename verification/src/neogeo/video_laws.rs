//! Laws of the NeoGeo picture: what a program puts into VRAM, palette RAM and the tile ROMs is
//! what is seen on the screen.

use crate::neogeo::video::{
    animated_tile, chain_after, chain_step, color_of, fix_color, fix_index, frame, line_color, scan_color,
    screen_x, source_line, sprite_color, sprite_height, sprite_line, sprites_over, tile_index, word, Chain, VideoView,
};
use crate::raster::{
    bit_at, byte_shows_its_bits, byte_with, is_picture, plane, planes_make_index, Picture, Rgb,
};
use vstd::prelude::*;

verus! {

/// A word is stored in VRAM at a word address, its high byte first.
pub open spec fn vram_holds(vram: Seq<u8>, at: int, w: int) -> bool {
    2 * at + 1 < vram.len() && vram[2 * at] * 256 + vram[2 * at + 1] == w
}

/// One plane of the eight pixels from column `x` of a row, the leftmost in the lowest bit.
#[verifier::opaque]
pub open spec fn plane_byte(pic: Picture, x: int, y: int, p: int) -> u8 {
    byte_with(Seq::new(8, |k: int| plane(pic(x + k, y), p)))
}

/// Row `y` of a picture is stored as a row of a sprite tile: four plane bytes, in the order 0,
/// 2, 1, 3, of the right half among the first 64 bytes, and of the left half among the last.
pub open spec fn sprite_row_stored(rom: Seq<u8>, tile: int, pic: Picture, y: int) -> bool {
    &&& rom[128 * tile + 4 * y] == plane_byte(pic, 8, y, 0)
    &&& rom[128 * tile + 4 * y + 1] == plane_byte(pic, 8, y, 2)
    &&& rom[128 * tile + 4 * y + 2] == plane_byte(pic, 8, y, 1)
    &&& rom[128 * tile + 4 * y + 3] == plane_byte(pic, 8, y, 3)
    &&& rom[128 * tile + 64 + 4 * y] == plane_byte(pic, 0, y, 0)
    &&& rom[128 * tile + 64 + 4 * y + 1] == plane_byte(pic, 0, y, 2)
    &&& rom[128 * tile + 64 + 4 * y + 2] == plane_byte(pic, 0, y, 1)
    &&& rom[128 * tile + 64 + 4 * y + 3] == plane_byte(pic, 0, y, 3)
}

/// A 16x16 picture is stored as a sprite tile.
pub open spec fn sprite_tile_stored(rom: Seq<u8>, tile: int, pic: Picture) -> bool {
    &&& 0 <= tile
    &&& 128 * tile + 128 <= rom.len()
    &&& is_picture(pic, 16, 16)
    &&& forall|y: int| 0 <= y < 16 ==> #[trigger] sprite_row_stored(rom, tile, pic, y)
}

proof fn plane_byte_shows(pic: Picture, w: int, h: int, x: int, y: int, p: int, k: int)
    requires
        is_picture(pic, w, h),
        0 <= x,
        x + 8 <= w,
        0 <= y < h,
        0 <= p < 4,
        0 <= k < 8,
    ensures
        bit_at(plane_byte(pic, x, y, p), k) == plane(pic(x + k, y), p),
{
    reveal(plane_byte);
    let bits = Seq::new(8, |k: int| plane(pic(x + k, y), p));
    assert forall|i: int| 0 <= i < 8 implies 0 <= #[trigger] bits[i] <= 1 by {
        assert(0 <= pic(x + i, y) < 16);
    }
    byte_shows_its_bits(bits, k);
}

/// Four plane bytes in the order 0, 2, 1, 3 show one pixel of their row.
proof fn plane_bytes_show(rom: Seq<u8>, base: int, pic: Picture, half: int, y: int, k: int)
    requires
        is_picture(pic, 16, 16),
        half == 0 || half == 8,
        0 <= y < 16,
        0 <= k < 8,
        rom[base] == plane_byte(pic, half, y, 0),
        rom[base + 1] == plane_byte(pic, half, y, 2),
        rom[base + 2] == plane_byte(pic, half, y, 1),
        rom[base + 3] == plane_byte(pic, half, y, 3),
    ensures
        bit_at(rom[base + 3], k) * 8 + bit_at(rom[base + 1], k) * 4 + bit_at(rom[base + 2], k) * 2 + bit_at(
            rom[base],
            k,
        ) == pic(half + k, y),
{
    plane_byte_shows(pic, 16, 16, half, y, 0, k);
    plane_byte_shows(pic, 16, 16, half, y, 1, k);
    plane_byte_shows(pic, 16, 16, half, y, 2, k);
    plane_byte_shows(pic, 16, 16, half, y, 3, k);
    assert(0 <= pic(half + k, y) < 16);
    planes_make_index(pic(half + k, y));
}

/// A picture stored as a sprite tile is read back pixel by pixel.
pub proof fn stored_tile_is_its_picture(rom: Seq<u8>, tile: int, pic: Picture, x: int, y: int)
    requires
        sprite_tile_stored(rom, tile, pic),
        0 <= x < 16,
        0 <= y < 16,
    ensures
        tile_index(rom, tile, x, y) == pic(x, y),
{
    assert(sprite_row_stored(rom, tile, pic, y));
    if x < 8 {
        plane_bytes_show(rom, tile * 128 + 64 + y * 4, pic, 0, y, x);
    } else {
        plane_bytes_show(rom, tile * 128 + y * 4, pic, 8, y, x - 8);
    }
}

/// The words of one tile of a sprite: its code in twenty bits, palette, animation and flips.
pub struct TileWords {
    pub code: int,
    pub palette: int,
    pub animated8: bool,
    pub animated4: bool,
    pub vflip: bool,
    pub hflip: bool,
}

/// One where a flag is set.
pub open spec fn one_if(b: bool) -> int {
    if b { 1 } else { 0 }
}

impl TileWords {
    pub open spec fn wf(self) -> bool {
        0 <= self.code < 0x10_0000 && 0 <= self.palette < 256
    }

    /// The tile's two words are in VRAM, as tile `t` of sprite `s`.
    pub open spec fn stored(self, vram: Seq<u8>, s: int, t: int) -> bool {
        &&& vram_holds(vram, 64 * s + 2 * t, self.code % 0x1_0000)
        &&& vram_holds(
            vram,
            64 * s + 2 * t + 1,
            self.palette * 256 + (self.code / 0x1_0000) * 16 + one_if(self.animated8) * 8 + one_if(
                self.animated4,
            ) * 4 + one_if(self.vflip) * 2 + one_if(self.hflip),
        )
    }

    /// The tile that is shown at an animation frame: the low three bits of the code, or the low
    /// two, follow the frame where the tile is animated.
    pub open spec fn shows(self, tile: int, frame: u8) -> bool {
        &&& self.animated8 ==> tile / 8 == self.code / 8 && tile % 8 == frame % 8
        &&& !self.animated8 && self.animated4 ==> tile / 4 == self.code / 4 && tile % 4 == frame % 4
        &&& !self.animated8 && !self.animated4 ==> tile == self.code
    }
}

/// Line `line` of a sprite of `rows` tiles shows source line `src`: by the zoom table where
/// there is one, else in proportion to the shrunk height.
pub open spec fn line_shows(lo_rom: Seq<u8>, rows: int, lines: int, vshrink: int, line: int, src: int) -> bool {
    if lo_rom.len() == 0 {
        line < lines && src * lines <= line * (rows * 16) < (src + 1) * lines
    } else {
        line < rows * 16 && src == (if vshrink * 256 + line < lo_rom.len() {
            lo_rom[vshrink * 256 + line] as int
        } else {
            0
        })
    }
}

/// What a picture shows: nothing where it is transparent, else a colour of the palette.
pub open spec fn pictured(v: VideoView, palette: int, index: int) -> Option<Rgb> {
    if index == 0 {
        None
    } else {
        Some(color_of(v.pal_ram, v.pal_bank, palette, index, v.shadow))
    }
}

proof fn quotient_is(n: int, d: int, q: int)
    requires
        d > 0,
        q * d <= n < (q + 1) * d,
    ensures
        n / d == q,
{
    assert(0 <= n - q * d < d) by (nonlinear_arith)
        requires
            q * d <= n < (q + 1) * d,
    ;
    vstd::arithmetic::div_mod::lemma_fundamental_div_mod_converse(n, d, q, n - q * d);
}

/// The column, left to right, that falls on a screen column.
proof fn column_on_screen(raw: int, x: int)
    requires
        0 <= raw < 512,
        0 <= x < 304,
    ensures
        ({
            let d = (x + 8 - raw) % 512;
            &&& d < 16 ==> x - screen_x(raw) == d
            &&& d >= 16 ==> x - screen_x(raw) < 0 || x - screen_x(raw) >= 16
        }),
{
}

proof fn shown_tile_is(w: TileWords, tile: int, frame: u8)
    requires
        w.wf(),
        w.shows(tile, frame),
    ensures
        animated_tile(
            w.code % 0x1_0000,
            w.palette * 256 + (w.code / 0x1_0000) * 16 + one_if(w.animated8) * 8 + one_if(w.animated4) * 4
                + one_if(w.vflip) * 2 + one_if(w.hflip),
            frame,
        ) == tile,
{
    let w1 = w.palette * 256 + (w.code / 0x1_0000) * 16 + one_if(w.animated8) * 8 + one_if(w.animated4) * 4
        + one_if(w.vflip) * 2 + one_if(w.hflip);
    assert((w1 / 16) % 16 == w.code / 0x1_0000);
    assert((w1 / 8) % 2 == one_if(w.animated8));
    assert((w1 / 4) % 2 == one_if(w.animated4));
}

/// The tile's words are read back from VRAM.
proof fn words_read_back(w: TileWords, vram: Seq<u8>, s: int, t: int)
    requires
        w.wf(),
        w.stored(vram, s, t),
    ensures
        ({
            let w0 = word(vram, (s * 64 + t * 2) * 2);
            let w1 = word(vram, (s * 64 + t * 2) * 2 + 2);
            &&& w0 == w.code % 0x1_0000
            &&& w1 == w.palette * 256 + (w.code / 0x1_0000) * 16 + one_if(w.animated8) * 8 + one_if(w.animated4) * 4
                + one_if(w.vflip) * 2 + one_if(w.hflip)
            &&& w1 / 256 == w.palette
            &&& (w1 % 2 == 1) == w.hflip
            &&& ((w1 / 2) % 2 == 1) == w.vflip
        }),
{
}

/// A line of a tile shows the picture's row, shrunk and flipped.
proof fn scan_shows_picture(v: VideoView, tile: int, palette: int, pic: Picture, dx: int, w: int, col: int, row: int, hflip: bool, vflip: bool)
    requires
        sprite_tile_stored(v.c_rom, tile, pic),
        1 <= w <= 16,
        0 <= dx < w,
        0 <= col < 16,
        col * w <= 16 * dx < (col + 1) * w,
        0 <= row < 16,
    ensures
        scan_color(v, tile, palette, dx, w, row, hflip, vflip) == pictured(
            v,
            palette,
            pic(if hflip { 15 - col } else { col }, if vflip { 15 - row } else { row }),
        ),
{
    reveal(scan_color);
    quotient_is(16 * dx, w, col);
    stored_tile_is_its_picture(
        v.c_rom,
        tile,
        pic,
        if hflip { 15 - col } else { col },
        if vflip { 15 - row } else { row },
    );
}

/// A line of a placed sprite shows the picture of the tile that it crosses.
proof fn line_shows_picture(v: VideoView, s: int, c: Chain, words: TileWords, tile: int, pic: Picture, dx: int, col: int, line: int, src: int, x: int)
    requires
        0 <= s < 381,
        1 <= c.w <= 16,
        1 <= c.rows <= 32,
        words.wf(),
        words.stored(v.vram, s, src / 16),
        words.shows(tile, v.auto_anim_frame),
        sprite_tile_stored(v.c_rom, tile, pic),
        dx == x - screen_x(c.x),
        0 <= dx < c.w,
        0 <= col < 16,
        col * c.w <= 16 * dx < (col + 1) * c.w,
        source_line(c, v.lo_rom, line) == src,
        0 <= src < 16 * c.rows,
    ensures
        line_color(v, s, c, line, x) == pictured(
            v,
            words.palette,
            pic(
                if words.hflip { 15 - col } else { col },
                if words.vflip { 15 - src % 16 } else { src % 16 },
            ),
        ),
{
    reveal(line_color);
    words_read_back(words, v.vram, s, src / 16);
    shown_tile_is(words, tile, v.auto_anim_frame);
    scan_shows_picture(v, tile, words.palette, pic, dx, c.w, col, src % 16, words.hflip, words.vflip);
}

proof fn source_line_is(c: Chain, lo_rom: Seq<u8>, line: int, src: int)
    requires
        1 <= c.lines,
        line_shows(lo_rom, c.rows, c.lines, c.vshrink, line, src),
    ensures
        source_line(c, lo_rom, line) == src,
        line < sprite_height(c, lo_rom),
{
    if lo_rom.len() == 0 {
        quotient_is(line * (c.rows * 16), c.lines, src);
    }
}

/// A placed sprite shows the picture of each of its tiles: mirrored where the tile is flipped,
/// with the columns and lines that its shrinking leaves.
pub proof fn placed_sprite_shows_picture(
    v: VideoView,
    s: int,
    c: Chain,
    words: TileWords,
    tile: int,
    pic: Picture,
    dx: int,
    col: int,
    line: int,
    src: int,
    x: int,
    y: int,
)
    requires
        0 <= s < 381,
        0x10800 + 2 * s + 1 < v.vram.len(),
        c == chain_after(v.vram, s + 1),
        0 <= c.x < 512,
        1 <= c.w <= 16,
        1 <= c.rows <= 32,
        1 <= c.lines,
        0 <= c.vshrink < 256,
        0 <= x < 304,
        0 <= y < 224,
        words.wf(),
        words.stored(v.vram, s, src / 16),
        words.shows(tile, v.auto_anim_frame),
        sprite_tile_stored(v.c_rom, tile, pic),
        dx == (x + 8 - c.x) % 512,
        dx < c.w,
        0 <= col < 16,
        col * c.w <= 16 * dx < (col + 1) * c.w,
        line == (y - c.y) % 512,
        line_shows(v.lo_rom, c.rows, c.lines, c.vshrink, line, src),
        0 <= src < 16 * c.rows,
    ensures
        sprite_color(v, s, x, y) == pictured(
            v,
            words.palette,
            pic(
                if words.hflip { 15 - col } else { col },
                if words.vflip { 15 - src % 16 } else { src % 16 },
            ),
        ),
{
    column_on_screen(c.x, x);
    source_line_is(c, v.lo_rom, line, src);
    line_shows_picture(v, s, c, words, tile, pic, dx, col, line, src, x);
}

proof fn congruent(a: int, r: int)
    requires
        0 <= r < 512,
        (a - r) % 512 == 0,
    ensures
        a % 512 == r,
{
}

/// The control words of a sprite that stands by itself: width and vertical shrink, top and
/// height, left edge.
pub open spec fn sprite_placed(vram: Seq<u8>, s: int, spare: int, hshrink: int, vshrink: int, y_pos: int, height: int, x_pos: int, low: int) -> bool {
    &&& 0 <= spare < 16
    &&& 0 <= hshrink < 16
    &&& 0 <= vshrink < 256
    &&& 0 <= y_pos < 512
    &&& 0 <= height < 64
    &&& 0 <= x_pos < 512
    &&& 0 <= low < 128
    &&& vram_holds(vram, 0x8000 + s, spare * 4096 + hshrink * 256 + vshrink)
    &&& vram_holds(vram, 0x8200 + s, y_pos * 128 + height)
    &&& vram_holds(vram, 0x8400 + s, x_pos * 128 + low)
}

proof fn placed_chain(vram: Seq<u8>, s: int, spare: int, hshrink: int, vshrink: int, y_pos: int, height: int, x_pos: int, low: int, rows: int, lines: int)
    requires
        0 <= s < 381,
        sprite_placed(vram, s, spare, hshrink, vshrink, y_pos, height, x_pos, low),
        rows == (if height < 32 { height } else { 32 }),
        16 * lines <= (vshrink + 1) * rows < 16 * (lines + 1),
    ensures
        chain_after(vram, s + 1) == (Chain {
            x: x_pos,
            w: hshrink + 1,
            y: 496 - y_pos,
            rows,
            lines,
            vshrink,
        }),
{
    let scb2 = spare * 4096 + hshrink * 256 + vshrink;
    assert((scb2 / 256) % 16 == hshrink && scb2 % 256 == vshrink);
    let scb3 = y_pos * 128 + height;
    assert(scb3 % 64 == height && (scb3 / 64) % 2 == 0 && scb3 / 128 == y_pos);
    assert((x_pos * 128 + low) / 128 == x_pos);
    assert(word(vram, 0x10000 + 2 * s) == scb2);
    assert(word(vram, 0x10400 + 2 * s) == scb3);
    assert(word(vram, 0x10800 + 2 * s) == x_pos * 128 + low);
    assert(((vshrink + 1) * rows * 16) / 256 == lines) by {
        let n = (vshrink + 1) * rows;
        assert((vshrink + 1) * rows * 16 == n * 16) by (nonlinear_arith)
            requires
                n == (vshrink + 1) * rows,
        ;
        assert((n * 16) / 256 == lines);
    }
    assert(chain_after(vram, s + 1) == chain_step(vram, chain_after(vram, s), s));
}

/// A sprite that stands by itself shows its tiles at its place: raw column 8 is the left edge of
/// the screen, raw line 496 its top, both wrapping at 512.  It is one column per tile column
/// wide, or fewer where it is shrunk, and as many tiles high as its height says, at most 32.
pub proof fn sprite_shows_its_picture(
    v: VideoView,
    s: int,
    spare: int,
    hshrink: int,
    vshrink: int,
    y_pos: int,
    height: int,
    x_pos: int,
    low: int,
    rows: int,
    lines: int,
    words: TileWords,
    tile: int,
    pic: Picture,
    dx: int,
    col: int,
    line: int,
    src: int,
    x: int,
    y: int,
)
    requires
        0 <= s < 381,
        sprite_placed(v.vram, s, spare, hshrink, vshrink, y_pos, height, x_pos, low),
        rows == (if height < 32 { height } else { 32 }),
        16 * lines <= (vshrink + 1) * rows < 16 * (lines + 1),
        1 <= rows,
        1 <= lines,
        words.wf(),
        words.stored(v.vram, s, src / 16),
        words.shows(tile, v.auto_anim_frame),
        sprite_tile_stored(v.c_rom, tile, pic),
        0 <= dx <= hshrink,
        (x - (x_pos - 8 + dx)) % 512 == 0,
        0 <= col < 16,
        col * (hshrink + 1) <= 16 * dx < (col + 1) * (hshrink + 1),
        0 <= line < 512,
        (y - (496 - y_pos + line)) % 512 == 0,
        line_shows(v.lo_rom, rows, lines, vshrink, line, src),
        0 <= src < 16 * rows,
        0 <= x < 304,
        0 <= y < 224,
    ensures
        sprite_color(v, s, x, y) == pictured(
            v,
            words.palette,
            pic(
                if words.hflip { 15 - col } else { col },
                if words.vflip { 15 - src % 16 } else { src % 16 },
            ),
        ),
{
    placed_chain(v.vram, s, spare, hshrink, vshrink, y_pos, height, x_pos, low, rows, lines);
    congruent(x + 8 - x_pos, dx);
    congruent(y - (496 - y_pos), line);
    placed_sprite_shows_picture(
        v,
        s,
        chain_after(v.vram, s + 1),
        words,
        tile,
        pic,
        dx,
        col,
        line,
        src,
        x,
        y,
    );
}

proof fn full_height_lines(height: int, lines: int, line: int)
    by (nonlinear_arith)
    requires
        lines == 16 * height,
        height > 0,
    ensures
        line * lines <= line * (height * 16) < (line + 1) * lines,
{
}

/// A full-size sprite that is not flipped shows its picture as it is: pixel (`px`, `py`) of the
/// picture of tile row `t` stands `px` columns to the right of the sprite's left edge and `py`
/// lines below the top of that tile row.
pub proof fn full_size_sprite_is_its_picture(
    v: VideoView,
    s: int,
    y_pos: int,
    height: int,
    x_pos: int,
    words: TileWords,
    pic: Picture,
    t: int,
    px: int,
    py: int,
    x: int,
    y: int,
)
    requires
        0 <= s < 381,
        sprite_placed(v.vram, s, 0, 15, 255, y_pos, height, x_pos, 0),
        v.lo_rom.len() == 0,
        0 <= t < height <= 32,
        words.wf(),
        words.stored(v.vram, s, t),
        !words.animated8 && !words.animated4 && !words.hflip && !words.vflip,
        sprite_tile_stored(v.c_rom, words.code, pic),
        0 <= px < 16,
        0 <= py < 16,
        0 <= x < 304,
        0 <= y < 224,
        (x - (x_pos - 8 + px)) % 512 == 0,
        (y - (496 - y_pos + 16 * t + py)) % 512 == 0,
    ensures
        sprite_color(v, s, x, y) == pictured(v, words.palette, pic(px, py)),
{
    let line = 16 * t + py;
    let lines = 16 * height;
    assert(line / 16 == t && line % 16 == py);
    assert((255 + 1) * height == 16 * lines) by (nonlinear_arith)
        requires
            lines == 16 * height,
    ;
    assert(px * (15 + 1) <= 16 * px < (px + 1) * (15 + 1)) by (nonlinear_arith);
    assert(words.shows(words.code, v.auto_anim_frame));
    assert(line_shows(v.lo_rom, height, lines, 255, line, line)) by {
        full_height_lines(height, lines, line);
    }
    sprite_shows_its_picture(
        v,
        s,
        0,
        15,
        255,
        y_pos,
        height,
        x_pos,
        0,
        height,
        lines,
        words,
        words.code,
        pic,
        px,
        px,
        line,
        line,
        x,
        y,
    );
}

/// A sprite shows nothing beside its columns or beyond its lines.
pub proof fn sprite_ends_at_its_edges(
    v: VideoView,
    s: int,
    spare: int,
    hshrink: int,
    vshrink: int,
    y_pos: int,
    height: int,
    x_pos: int,
    low: int,
    rows: int,
    lines: int,
    x: int,
    y: int,
)
    requires
        0 <= s < 381,
        sprite_placed(v.vram, s, spare, hshrink, vshrink, y_pos, height, x_pos, low),
        rows == (if height < 32 { height } else { 32 }),
        16 * lines <= (vshrink + 1) * rows < 16 * (lines + 1),
        0 <= x < 304,
        0 <= y < 224,
        (x + 8 - x_pos) % 512 > hshrink || (y + 16 + y_pos) % 512 >= (if v.lo_rom.len() == 0 {
            lines
        } else {
            rows * 16
        }),
    ensures
        sprite_color(v, s, x, y) is None,
{
    placed_chain(v.vram, s, spare, hshrink, vshrink, y_pos, height, x_pos, low, rows, lines);
    let c = chain_after(v.vram, s + 1);
    same_remainder(y + 16 + y_pos, y - (496 - y_pos));
    if (x + 8 - x_pos) % 512 > hshrink {
        column_on_screen(x_pos, x);
        beside_shows_nothing(v, s, c, sprite_line(c, y), x);
    }
}

proof fn same_remainder(a: int, b: int)
    requires
        a == b + 512,
    ensures
        a % 512 == b % 512,
{
}

proof fn beside_shows_nothing(v: VideoView, s: int, c: Chain, line: int, x: int)
    requires
        x < screen_x(c.x) || x >= screen_x(c.x) + c.w,
    ensures
        line_color(v, s, c, line, x) is None,
{
    reveal(line_color);
}

/// A sticky sprite stands right of the one before: its columns begin where the other's end, and
/// its lines are the other's.
pub proof fn sticky_sprite_stands_beside(vram: Seq<u8>, s: int, spare: int, hshrink: int, own: int, high: int, height: int)
    requires
        0 < s < 381,
        0x10800 + 2 * s + 1 < vram.len(),
        0 <= spare < 16,
        0 <= hshrink < 16,
        0 <= own < 256,
        0 <= high < 512,
        0 <= height < 64,
        vram_holds(vram, 0x8000 + s, spare * 4096 + hshrink * 256 + own),
        vram_holds(vram, 0x8200 + s, high * 128 + 64 + height),
    ensures
        ({
            let before = chain_after(vram, s);
            chain_after(vram, s + 1) == (Chain {
                x: (before.x + before.w) % 512,
                w: hshrink + 1,
                ..before
            })
        }),
{
    let scb2 = spare * 4096 + hshrink * 256 + own;
    assert((scb2 / 256) % 16 == hshrink);
    let scb3 = high * 128 + 64 + height;
    assert((scb3 / 64) % 2 == 1);
    assert(word(vram, 0x10000 + 2 * s) == scb2);
    assert(word(vram, 0x10400 + 2 * s) == scb3);
    assert(chain_after(vram, s + 1) == chain_step(vram, chain_after(vram, s), s));
}

// ── Colours ──────────────────────────────────────────────────────────────────

/// A channel of five bits on the screen: its top bits repeated below, a little less where the
/// dark bit is set, and dimmed while the shadow is on.
pub open spec fn shade(five: int, dark: bool, shadow: bool) -> int {
    let full = 8 * five + five / 4;
    let fine = if dark { full * 251 / 255 } else { full };
    if shadow { fine * 142 / 255 } else { fine }
}

/// A palette entry built from three channels of five bits and the dark bit shows those channels.
/// Entry `i` of palette `p` is the big-endian word at `32 * p + 2 * i` of its bank of 8 KB.
pub proof fn palette_entry_shows_its_channels(
    pal_ram: Seq<u8>,
    bank: bool,
    p: int,
    i: int,
    r: int,
    g: int,
    b: int,
    dark: bool,
    shadow: bool,
)
    requires
        pal_ram.len() >= 0x4000,
        0 <= p < 256,
        0 <= i < 16,
        0 <= r < 32,
        0 <= g < 32,
        0 <= b < 32,
        ({
            let at = 0x2000 * one_if(bank) + 32 * p + 2 * i;
            pal_ram[at] * 256 + pal_ram[at + 1] == 0x8000 * one_if(dark) + 0x4000 * (r % 2) + 0x2000 * (g % 2)
                + 0x1000 * (b % 2) + 0x100 * (r / 2) + 0x10 * (g / 2) + b / 2
        }),
    ensures
        color_of(pal_ram, bank, p, i, shadow) == (
            shade(r, dark, shadow) as u8,
            shade(g, dark, shadow) as u8,
            shade(b, dark, shadow) as u8,
        ),
{
    let at = 0x2000 * one_if(bank) + 32 * p + 2 * i;
    let (hi, lo) = (pal_ram[at], pal_ram[at + 1]);
    let (r5, g5, b5) = (r as u16, g as u16, b as u16);
    let d = one_if(dark) as u16;
    let e = ((hi as u16) << 8) | (lo as u16);
    assert((((e >> 8) & 0xF) << 1) | ((e >> 14) & 1) == r5 && (((e >> 4) & 0xF) << 1) | ((e >> 13) & 1) == g5 && (
    (e & 0xF) << 1) | ((e >> 12) & 1) == b5 && (e & 0x8000 != 0) == (d == 1) && ((r5 << 3) | (r5 >> 2)) == 8 * r5
        + r5 / 4 && ((g5 << 3) | (g5 >> 2)) == 8 * g5 + g5 / 4 && ((b5 << 3) | (b5 >> 2)) == 8 * b5 + b5 / 4)
        by (bit_vector)
        requires
            e == ((hi as u16) << 8) | (lo as u16),
            (hi as u32) * 256 + (lo as u32) == 0x8000 * (d as u32) + 0x4000 * ((r5 % 2) as u32) + 0x2000 * ((g5
                % 2) as u32) + 0x1000 * ((b5 % 2) as u32) + 0x100 * ((r5 / 2) as u32) + 0x10 * ((g5 / 2) as u32) + (
            (b5 / 2) as u32),
            d <= 1,
            r5 < 32,
            g5 < 32,
            b5 < 32,
    ;
}

/// Full channels are white and empty ones black; the dark bit and the shadow only dim.
pub proof fn shades_are_dimmed(five: int, other: int, dark: bool, shadow: bool)
    requires
        0 <= five < 32,
        0 <= other < 32,
    ensures
        shade(31, false, false) == 255,
        shade(0, dark, shadow) == 0,
        0 <= shade(five, dark, true) <= shade(five, dark, false),
        0 <= shade(five, true, shadow) <= shade(five, false, shadow) <= 255,
        five < other ==> shade(five, dark, false) < shade(other, dark, false),
{
}

// ── Fix layer ────────────────────────────────────────────────────────────────

/// Row `y` of an 8x8 picture is stored as a row of a fix tile: two pixels a byte, the left one
/// in the low nibble, in four strips that hold columns 4-5, 6-7, 0-1 and 2-3.
pub open spec fn fix_row_stored(rom: Seq<u8>, tile: int, pic: Picture, y: int) -> bool {
    &&& rom[32 * tile + y] == pic(4, y) + 16 * pic(5, y)
    &&& rom[32 * tile + 8 + y] == pic(6, y) + 16 * pic(7, y)
    &&& rom[32 * tile + 16 + y] == pic(0, y) + 16 * pic(1, y)
    &&& rom[32 * tile + 24 + y] == pic(2, y) + 16 * pic(3, y)
}

/// An 8x8 picture is stored as a fix tile.
pub open spec fn fix_tile_stored(rom: Seq<u8>, tile: int, pic: Picture) -> bool {
    &&& 0 <= tile
    &&& 32 * tile + 32 <= rom.len()
    &&& is_picture(pic, 8, 8)
    &&& forall|y: int| 0 <= y < 8 ==> #[trigger] fix_row_stored(rom, tile, pic, y)
}

proof fn stored_fix_tile_is_its_picture(rom: Seq<u8>, tile: int, pic: Picture, x: int, y: int)
    requires
        fix_tile_stored(rom, tile, pic),
        0 <= x < 8,
        0 <= y < 8,
    ensures
        fix_index(rom, tile, x, y) == pic(x, y),
{
    assert(fix_row_stored(rom, tile, pic, y));
    let left = x - x % 2;
    assert(0 <= pic(left, y) < 16 && 0 <= pic(left + 1, y) < 16);
    assert(x == left || x == left + 1);
    assert(left == 0 || left == 2 || left == 4 || left == 6);
}

/// A cell of the fix map shows the picture of its tile: the cell of screen tile (`col`, `row`)
/// is at word `0x7000 + 32 * (col + 1) + row + 2`, with the tile in its low twelve bits and the
/// palette above.  The tiles are the board's own while it is selected or there are no others.
pub proof fn fix_cell_shows_its_picture(
    v: VideoView,
    rom: Seq<u8>,
    col: int,
    row: int,
    tile: int,
    palette: int,
    pic: Picture,
    x: int,
    y: int,
)
    requires
        0 <= col < 38,
        0 <= row < 28,
        0 <= tile < 4096,
        0 <= palette < 16,
        0 <= x < 8,
        0 <= y < 8,
        vram_holds(v.vram, 0x7000 + 32 * (col + 1) + row + 2, palette * 4096 + tile),
        v.brd_fix ==> rom == v.sfix_rom,
        !v.brd_fix && v.s_rom.len() > 0 ==> rom == v.s_rom,
        v.s_rom.len() == 0 ==> rom == v.sfix_rom,
        fix_tile_stored(rom, tile, pic),
    ensures
        fix_color(v, 8 * col + x, 8 * row + y) == pictured(v, palette, pic(x, y)),
{
    stored_fix_tile_is_its_picture(rom, tile, pic, x, y);
    let w = palette * 4096 + tile;
    assert(w % 4096 == tile && w / 4096 == palette);
    assert((8 * col + x) / 8 == col && (8 * col + x) % 8 == x);
    assert((8 * row + y) / 8 == row && (8 * row + y) % 8 == y);
}

// ── Layers ───────────────────────────────────────────────────────────────────

proof fn last_shown_sprite(v: VideoView, n: int, s: int, x: int, y: int, under: Rgb)
    requires
        -1 <= s < n,
        forall|t: int| s < t < n ==> #[trigger] sprite_color(v, t, x, y) is None,
        s >= 0 ==> sprite_color(v, s, x, y) is Some,
    ensures
        sprites_over(v, n, x, y, under) == (if s >= 0 { sprite_color(v, s, x, y)->0 } else { under }),
    decreases n,
{
    if n > 0 && s < n - 1 {
        assert(sprite_color(v, n - 1, x, y) is None);
        last_shown_sprite(v, n - 1, s, x, y, under);
    }
}

/// The screen, 304 pixels a row from the top left: the fix layer covers the sprites, a later
/// sprite covers an earlier one, and where nothing shows the last colour of the last palette
/// does.
pub proof fn screen_is_layered(v: VideoView, s: int, x: int, y: int)
    requires
        0 <= x < 304,
        0 <= y < 224,
        -1 <= s < 381,
        forall|t: int| s < t < 381 ==> #[trigger] sprite_color(v, t, x, y) is None,
        s >= 0 ==> sprite_color(v, s, x, y) is Some,
    ensures
        frame(v).len() == 304 * 224,
        frame(v)[304 * y + x] == (match fix_color(v, x, y) {
            Some(c) => c,
            None => if s >= 0 {
                sprite_color(v, s, x, y)->0
            } else {
                color_of(v.pal_ram, v.pal_bank, 255, 15, v.shadow)
            },
        }),
{
    last_shown_sprite(v, 381, s, x, y, color_of(v.pal_ram, v.pal_bank, 255, 15, v.shadow));
    assert((304 * y + x) % 304 == x && (304 * y + x) / 304 == y);
}

} // verus!
