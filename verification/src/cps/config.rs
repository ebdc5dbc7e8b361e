//! Per-game configuration of the CPS-A and CPS-B custom chips.

use crate::text::str_eq;
use vstd::prelude::*;

verus! {

/// Kinds of graphics.
pub const GFXTYPE_SPRITES: i32 = 0x01;
pub const GFXTYPE_SCROLL1: i32 = 0x02;
pub const GFXTYPE_SCROLL2: i32 = 0x04;
pub const GFXTYPE_SCROLL3: i32 = 0x08;

/// One entry of a game's bank mapping; `start` and `end` count 8x8 tiles.
#[derive(Clone, Copy)]
pub struct GfxRange {
    pub gfxtype: i32,
    pub start: i32,
    pub end: i32,
    pub bank: usize,
}

/// Registers of the CPS-B chip, as byte offsets; -1 where a register is not used.
#[derive(Clone, Copy)]
pub struct CpsBConfig {
    /// Self-test register and the value it reads as.
    pub cpsb_addr: i32,
    pub cpsb_value: i32,
    /// 16x16 multiply protection.
    pub mult_factor1: i32,
    pub mult_factor2: i32,
    pub mult_result_lo: i32,
    pub mult_result_hi: i32,
    /// Layer-control register.
    pub layer_control: i32,
    /// Priority masks of the four tile groups.
    pub priority: [i32; 4],
    /// Palette-control register: the palette pages that are copied.
    pub palette_control: i32,
    /// Layer-enable bits.
    pub layer_enable_mask: [i32; 5],
}

/// A game.
#[derive(Clone, Copy)]
pub struct CpsGame {
    pub name: &'static str,
    pub cpsb: CpsBConfig,
    /// Sizes of the graphics banks in 8x8 tiles.
    pub bank_sizes: [i32; 4],
    pub bank_mapper: [GfxRange; 6],
    /// CPS-B byte offsets of the extra input registers; 0 where there is none.
    pub in2_addr: i32,
    pub in3_addr: i32,
    /// Main CPU clock in Hz.
    pub cpu_clock: u32,
}

/// The bank mapping of both games.
pub open spec fn mapper_sf2() -> Seq<GfxRange> {
    seq![
        GfxRange { gfxtype: 0x01, start: 0x00000, end: 0x07fff, bank: 0 },
        GfxRange { gfxtype: 0x01, start: 0x08000, end: 0x0ffff, bank: 1 },
        GfxRange { gfxtype: 0x01, start: 0x10000, end: 0x11fff, bank: 2 },
        GfxRange { gfxtype: 0x08, start: 0x02000, end: 0x03fff, bank: 2 },
        GfxRange { gfxtype: 0x02, start: 0x04000, end: 0x04fff, bank: 2 },
        GfxRange { gfxtype: 0x04, start: 0x05000, end: 0x07fff, bank: 2 },
    ]
}

/// What the boards of both games share.
pub open spec fn is_sf2_board(g: CpsGame) -> bool {
    &&& g.bank_mapper@ == mapper_sf2()
    &&& g.bank_sizes@ == seq![0x8000i32, 0x8000, 0x8000, 0]
    &&& g.in2_addr == 0x36
    &&& g.in3_addr == 0
    &&& g.cpsb.cpsb_addr == 0x32
    &&& g.cpsb.layer_control == 0x26
    &&& g.cpsb.priority@ == seq![0x28i32, 0x2a, 0x2c, 0x2e]
    &&& g.cpsb.palette_control == 0x30
}

/// Street Fighter II: CPS-B-11 with a self-test value and no multiplier.
pub open spec fn is_sf2(g: CpsGame) -> bool {
    &&& g.name@ == "sf2"@
    &&& is_sf2_board(g)
    &&& g.cpsb.cpsb_value == 0x0401
    &&& g.cpsb.mult_factor1 == -1
    &&& g.cpsb.mult_factor2 == -1
    &&& g.cpsb.mult_result_lo == -1
    &&& g.cpsb.mult_result_hi == -1
    &&& g.cpsb.layer_enable_mask@ == seq![0x08i32, 0x10, 0x20, 0x00, 0x00]
    &&& g.cpu_clock == 10_000_000
}

/// Champion Edition: CPS-B-21 with the multiplier and no self-test value.
pub open spec fn is_sf2ce(g: CpsGame) -> bool {
    &&& g.name@ == "sf2ce"@
    &&& is_sf2_board(g)
    &&& g.cpsb.cpsb_value == -1
    &&& g.cpsb.mult_factor1 == 0x00
    &&& g.cpsb.mult_factor2 == 0x02
    &&& g.cpsb.mult_result_lo == 0x04
    &&& g.cpsb.mult_result_hi == 0x06
    &&& g.cpsb.layer_enable_mask@ == seq![0x02i32, 0x04, 0x08, 0x30, 0x30]
    &&& g.cpu_clock == 12_000_000
}

/// Shift from tiles of a kind to 8x8 tiles.
pub open spec fn tile_shift(gfxtype: i32) -> u32 {
    if gfxtype == GFXTYPE_SPRITES || gfxtype == GFXTYPE_SCROLL2 {
        1
    } else if gfxtype == GFXTYPE_SCROLL3 {
        3
    } else {
        0
    }
}

impl CpsGame {
    /// Registers and banks lie where the chips have them.
    pub open spec fn wf(self) -> bool {
        &&& forall|i: int| 0 <= i < 4 ==> 0 <= #[trigger] self.bank_sizes@[i] <= 0x10_0000
        &&& forall|i: int|
            0 <= i < 6 ==> (#[trigger] self.bank_mapper@[i]).bank < 4
                && self.bank_sizes@[self.bank_mapper@[i].bank as int] > 0
        &&& self.cpsb.mult_result_lo >= 0 || self.cpsb.mult_result_hi >= 0 ==> 0
            <= self.cpsb.mult_factor1 < 64 && 0 <= self.cpsb.mult_factor2 < 64
        &&& self.in2_addr >= 0
        &&& self.in3_addr >= 0
        &&& self.cpsb.layer_control >= 0
        &&& self.cpu_clock < 0x8000_0000
    }

    /// Where a bank starts, in 8x8 tiles.
    pub open spec fn bank_base(self, bank: int) -> int
        decreases bank,
    {
        if bank <= 0 { 0 } else { self.bank_base(bank - 1) + self.bank_sizes@[bank - 1] }
    }

    /// Range `i` of the mapping holds a tile.
    pub open spec fn range_holds(self, i: int, gfxtype: i32, tile: i32) -> bool {
        let r = self.bank_mapper@[i];
        gfxtype & r.gfxtype != 0 && r.start <= tile <= r.end
    }

    /// First range from `i` on that holds a tile.
    pub open spec fn range_of(self, i: int, gfxtype: i32, tile: i32) -> Option<int>
        decreases 6 - i,
    {
        if i >= 6 {
            None
        } else if self.range_holds(i, gfxtype, tile) {
            Some(i)
        } else {
            self.range_of(i + 1, gfxtype, tile)
        }
    }

    /// Position of a tile in the graphics data: within the bank that the first fitting range
    /// names; -1 where none fits.
    pub open spec fn mapped(self, gfxtype: i32, code: i32) -> i32 {
        let shift = tile_shift(gfxtype);
        let tile = code << shift;
        match self.range_of(0, gfxtype, tile) {
            Some(i) => {
                let bank = self.bank_mapper@[i].bank as int;
                let size = self.bank_sizes@[bank];
                ((self.bank_base(bank) + (tile & ((size - 1) as i32))) as i32) >> shift
            },
            None => -1i32,
        }
    }

    /// Remap a tile `code` of a kind to its position in the graphics data.
    pub fn gfxrom_bank_mapper(&self, gfxtype: i32, code: i32) -> (r: i32)
        requires
            self.wf(),
        ensures
            r == self.mapped(gfxtype, code),
            -1 <= r <= 0x40_0000,
    {
        let shift: u32 = if gfxtype == GFXTYPE_SPRITES || gfxtype == GFXTYPE_SCROLL2 {
            1
        } else if gfxtype == GFXTYPE_SCROLL3 {
            3
        } else {
            0
        };
        let tile: i32 = code << shift;
        let mut i: usize = 0;
        while i < 6
            invariant
                i <= 6,
                self.wf(),
                shift == tile_shift(gfxtype),
                tile == code << shift,
                self.range_of(0, gfxtype, tile) == self.range_of(i as int, gfxtype, tile),
            decreases 6 - i,
        {
            let range = self.bank_mapper[i];
            if (gfxtype & range.gfxtype) != 0 && tile >= range.start && tile <= range.end {
                let mut base: i32 = 0;
                let mut b: usize = 0;
                assert(range.bank == self.bank_mapper@[i as int].bank);
                while b < range.bank
                    invariant
                        b <= range.bank < 4,
                        self.wf(),
                        base == self.bank_base(b as int),
                        0 <= base <= b * 0x10_0000,
                    decreases range.bank - b,
                {
                    assert(0 <= self.bank_sizes@[b as int] <= 0x10_0000);
                    base = base + self.bank_sizes[b];
                    b = b + 1;
                }
                let size: i32 = self.bank_sizes[range.bank];
                let mask: i32 = size - 1;
                let pos: i32 = tile & mask;
                proof {
                    masked_stays_below(tile, mask);
                    shifted_stays_below((base + pos) as i32, shift);
                }
                return (base + pos) >> shift;
            }
            i = i + 1;
        }
        -1
    }
}

proof fn masked_stays_below(a: i32, m: i32)
    requires
        m >= 0,
    ensures
        0 <= a & m <= m,
{
    assert(m >= 0 ==> 0 <= a & m <= m) by (bit_vector);
}

proof fn shifted_stays_below(a: i32, s: u32)
    requires
        a >= 0,
        s <= 3,
    ensures
        0 <= a >> s <= a,
{
    assert(a >= 0 && s <= 3 ==> 0 <= a >> s <= a) by (bit_vector);
}

fn sf2_mapper() -> (r: [GfxRange; 6])
    ensures
        r@ == mapper_sf2(),
{
    let r = [
        GfxRange { gfxtype: GFXTYPE_SPRITES, start: 0x00000, end: 0x07fff, bank: 0 },
        GfxRange { gfxtype: GFXTYPE_SPRITES, start: 0x08000, end: 0x0ffff, bank: 1 },
        GfxRange { gfxtype: GFXTYPE_SPRITES, start: 0x10000, end: 0x11fff, bank: 2 },
        GfxRange { gfxtype: GFXTYPE_SCROLL3, start: 0x02000, end: 0x03fff, bank: 2 },
        GfxRange { gfxtype: GFXTYPE_SCROLL1, start: 0x04000, end: 0x04fff, bank: 2 },
        GfxRange { gfxtype: GFXTYPE_SCROLL2, start: 0x05000, end: 0x07fff, bank: 2 },
    ];
    assert(r@ =~= mapper_sf2());
    r
}

/// The `sf2` configuration.
pub fn sf2() -> (r: CpsGame)
    ensures
        is_sf2(r),
        r.wf(),
{
    let sizes: [i32; 4] = [0x8000, 0x8000, 0x8000, 0];
    let priority: [i32; 4] = [0x28, 0x2a, 0x2c, 0x2e];
    let masks: [i32; 5] = [0x08, 0x10, 0x20, 0x00, 0x00];
    assert(sizes@ =~= seq![0x8000i32, 0x8000, 0x8000, 0]);
    assert(priority@ =~= seq![0x28i32, 0x2a, 0x2c, 0x2e]);
    assert(masks@ =~= seq![0x08i32, 0x10, 0x20, 0x00, 0x00]);
    CpsGame {
        name: "sf2",
        cpsb: CpsBConfig {
            cpsb_addr: 0x32,
            cpsb_value: 0x0401,
            mult_factor1: -1,
            mult_factor2: -1,
            mult_result_lo: -1,
            mult_result_hi: -1,
            layer_control: 0x26,
            priority,
            palette_control: 0x30,
            layer_enable_mask: masks,
        },
        bank_sizes: sizes,
        bank_mapper: sf2_mapper(),
        in2_addr: 0x36,
        in3_addr: 0,
        cpu_clock: 10_000_000,
    }
}

/// The `sf2ce` configuration.
pub fn sf2ce() -> (r: CpsGame)
    ensures
        is_sf2ce(r),
        r.wf(),
{
    let sizes: [i32; 4] = [0x8000, 0x8000, 0x8000, 0];
    let priority: [i32; 4] = [0x28, 0x2a, 0x2c, 0x2e];
    let masks: [i32; 5] = [0x02, 0x04, 0x08, 0x30, 0x30];
    assert(sizes@ =~= seq![0x8000i32, 0x8000, 0x8000, 0]);
    assert(priority@ =~= seq![0x28i32, 0x2a, 0x2c, 0x2e]);
    assert(masks@ =~= seq![0x02i32, 0x04, 0x08, 0x30, 0x30]);
    CpsGame {
        name: "sf2ce",
        cpsb: CpsBConfig {
            cpsb_addr: 0x32,
            cpsb_value: -1,
            mult_factor1: 0x00,
            mult_factor2: 0x02,
            mult_result_lo: 0x04,
            mult_result_hi: 0x06,
            layer_control: 0x26,
            priority,
            palette_control: 0x30,
            layer_enable_mask: masks,
        },
        bank_sizes: sizes,
        bank_mapper: sf2_mapper(),
        in2_addr: 0x36,
        in3_addr: 0,
        cpu_clock: 12_000_000,
    }
}

/// The configuration of a ROM set.
pub fn find(name: &str) -> (r: Option<CpsGame>)
    ensures
        r is Some <==> name@ == "sf2"@ || name@ == "sf2ce"@,
        r matches Some(g) ==> g.wf() && (name@ == "sf2"@ ==> is_sf2(g)) && (name@ == "sf2ce"@
            ==> is_sf2ce(g)),
{
    proof {
        reveal_strlit("sf2");
        reveal_strlit("sf2ce");
        assert("sf2"@.len() != "sf2ce"@.len());
    }
    if str_eq(name, "sf2") {
        Some(sf2())
    } else if str_eq(name, "sf2ce") {
        Some(sf2ce())
    } else {
        None
    }
}

/// A mapped tile lies within the banks, whatever the code.
pub proof fn mapped_lies_in_banks(g: CpsGame, gfxtype: i32, code: i32)
    requires
        g.wf(),
    ensures
        g.mapped(gfxtype, code) >= -1,
        g.mapped(gfxtype, code) < 0 || (g.mapped(gfxtype, code) as int) < 0x40_0000,
{
    let shift = tile_shift(gfxtype);
    let tile = code << shift;
    range_of_bound(g, 0, gfxtype, tile);
    match g.range_of(0, gfxtype, tile) {
        Some(i) => {
            let bank = g.bank_mapper@[i].bank as int;
            let size = g.bank_sizes@[bank];
            bank_base_bound(g, bank);
            masked_stays_below(tile, (size - 1) as i32);
            shifted_stays_below((g.bank_base(bank) + (tile & ((size - 1) as i32))) as i32, shift);
        },
        None => {},
    }
}

proof fn range_of_bound(g: CpsGame, i: int, gfxtype: i32, tile: i32)
    requires
        0 <= i <= 6,
    ensures
        g.range_of(i, gfxtype, tile) matches Some(k) ==> i <= k < 6 && g.range_holds(k, gfxtype, tile),
    decreases 6 - i,
{
    if i < 6 {
        range_of_bound(g, i + 1, gfxtype, tile);
    }
}

proof fn bank_base_bound(g: CpsGame, bank: int)
    requires
        g.wf(),
        0 <= bank < 4,
    ensures
        0 <= g.bank_base(bank) <= bank * 0x10_0000,
    decreases bank,
{
    if bank > 0 {
        bank_base_bound(g, bank - 1);
    }
}

} // verus!
