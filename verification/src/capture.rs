//! Capturing a boot savestate: the recipe of a game and the input of each of its frames.

use crate::io::InputState;
use crate::text::{chars_of, str_eq};
use vstd::prelude::*;

verus! {

/// How the character select screen of a game is reached.
#[derive(Debug, Clone, Copy, PartialEq, Eq, Structural)]
pub enum Recipe {
    /// Coins, second player's start, skip the instructions, settle.
    Kof98,
    /// Coins, then the second player's start again and again, then idle.
    Cps,
    /// Some idle frames.
    Generic,
}

/// Frames of the recipes.
pub const KOF98_FRAMES: usize = 2313;
pub const CPS_FRAMES: usize = 1021;
pub const GENERIC_FRAMES: usize = 600;

/// The platform of a game that no catalog names.
pub fn default_platform(game: &str) -> (r: &'static str)
    ensures
        r@ == (if game@.len() >= 3 && game@.take(3) == "sf2"@ { "cps1"@ } else { "neogeo"@ }),
{
    proof {
        reveal_strlit("sf2");
    }
    let c = chars_of(game);
    if c.len() >= 3 && c[0] == 's' && c[1] == 'f' && c[2] == '2' {
        assert(game@.take(3) =~= "sf2"@);
        "cps1"
    } else {
        proof {
            if game@.len() >= 3 && game@.take(3) == "sf2"@ {
                assert(game@[0] == game@.take(3)[0] && game@[1] == game@.take(3)[1] && game@[2] == game@.take(
                    3,
                )[2]);
            }
        }
        "neogeo"
    }
}

/// The recipe of a game on a platform.
pub fn recipe(platform: &str, game: &str) -> (r: Recipe)
    ensures
        r == (if platform@ == "cps1"@ || platform@ == "cps"@ {
            Recipe::Cps
        } else if game@ == "kof98"@ {
            Recipe::Kof98
        } else {
            Recipe::Generic
        }),
{
    if str_eq(platform, "cps1") || str_eq(platform, "cps") {
        Recipe::Cps
    } else if str_eq(game, "kof98") {
        Recipe::Kof98
    } else {
        Recipe::Generic
    }
}

impl Recipe {
    /// Frames of the recipe.
    pub open spec fn frames(self) -> int {
        match self {
            Recipe::Kof98 => KOF98_FRAMES as int,
            Recipe::Cps => CPS_FRAMES as int,
            Recipe::Generic => GENERIC_FRAMES as int,
        }
    }

    /// Input of a frame of the recipe.
    pub open spec fn input(self, f: int) -> InputState {
        let idle = InputState::idle();
        match self {
            Recipe::Kof98 => if f == 500 {
                InputState { coin: 0x3C, ..idle }
            } else if f == 550 || f == 2302 {
                InputState { sys: 0xFB, ..idle }
            } else if f == 2300 {
                InputState { p1: 0xEF, ..idle }
            } else {
                idle
            },
            Recipe::Cps => InputState {
                coin: if 300 <= f < 306 {
                    0xFE
                } else if 320 <= f < 326 {
                    0xFD
                } else {
                    0xFF
                },
                sys: if 600 <= f < 900 && f % 40 < 6 { 0xFB } else { 0xFF },
                ..idle
            },
            Recipe::Generic => idle,
        }
    }

    /// Frames of the recipe.
    pub fn frame_count(&self) -> (r: usize)
        ensures
            r == self.frames(),
    {
        match self {
            Recipe::Kof98 => KOF98_FRAMES,
            Recipe::Cps => CPS_FRAMES,
            Recipe::Generic => GENERIC_FRAMES,
        }
    }

    /// Input of a frame of the recipe.
    pub fn input_at(&self, f: usize) -> (r: InputState)
        ensures
            r == self.input(f as int),
    {
        let mut s = InputState::default();
        match self {
            Recipe::Kof98 => {
                if f == 500 {
                    s.coin = 0x3C;
                } else if f == 550 || f == 2302 {
                    s.sys = 0xFB;
                } else if f == 2300 {
                    s.p1 = 0xEF;
                }
            },
            Recipe::Cps => {
                s.coin = if 300 <= f && f < 306 {
                    0xFE
                } else if 320 <= f && f < 326 {
                    0xFD
                } else {
                    0xFF
                };
                if 600 <= f && f < 900 && f % 40 < 6 {
                    s.sys = 0xFB;
                }
            },
            Recipe::Generic => {},
        }
        s
    }

    /// Audio samples that a frame of the recipe produces; 0 leaves the choice to the core.
    pub fn samples_per_frame(&self) -> (r: usize)
        ensures
            r == (if self == Recipe::Cps { 0int } else { 735 }),
    {
        match self {
            Recipe::Cps => 0,
            _ => 735,
        }
    }
}

/// The captured state has no button held: the recipe ends with idle frames.
pub proof fn recipes_end_idle(r: Recipe, f: int)
    requires
        r.frames() - 10 <= f < r.frames(),
    ensures
        r.input(f).p1 == 0xFF,
        r.input(f).p2 == 0xFF,
        r.input(f).sys == 0xFF,
        r.input(f).coin == 0x3F || r.input(f).coin == 0xFF,
        r.input(f).ext == 0x0F,
{
}

/// The header of a 384x224 binary PPM picture.
pub open spec fn ppm_header() -> Seq<u8> {
    seq![
        0x50u8, 0x36, 0x0A, 0x33, 0x38, 0x34, 0x20, 0x32, 0x32, 0x34, 0x0A, 0x32, 0x35, 0x35, 0x0A,
    ]
}

/// A CPS1 picture as a binary PPM file.
pub fn ppm_picture(fb: &[u8]) -> (r: Vec<u8>)
    requires
        fb@.len() >= 258048,
    ensures
        r@ == ppm_header() + fb@.take(258048),
{
    let mut out: Vec<u8> = vec![
        0x50, 0x36, 0x0A, 0x33, 0x38, 0x34, 0x20, 0x32, 0x32, 0x34, 0x0A, 0x32, 0x35, 0x35, 0x0A,
    ];
    assert(out@ =~= ppm_header());
    let mut i: usize = 0;
    while i < 258048
        invariant
            i <= 258048,
            fb@.len() >= 258048,
            out@ == ppm_header() + fb@.take(i as int),
        decreases 258048 - i,
    {
        out.push(fb[i]);
        assert(out@ =~= ppm_header() + fb@.take(i + 1));
        i = i + 1;
    }
    out
}

/// The header of a picture, in letters: the format, the size and the largest value.
pub proof fn picture_header_is_text(i: int)
    requires
        0 <= i < 15,
    ensures
        ppm_header().len() == 15,
        ppm_header()[i] as int == "P6\n384 224\n255\n"@[i] as int,
{
    reveal_strlit("P6\n384 224\n255\n");
}

/// When the recipes press what, and that they press nothing else.  For the one of KoF '98 both coins
/// drop at frame 500, the second player starts at 550 and at 2302, and A is pressed at 2300; on the
/// other platform the coins drop at 300 and 320, for six frames each, and the second player's start
/// is pressed for six of every forty frames between 600 and 900.
pub proof fn recipes_press_in_time(f: int)
    requires
        0 <= f,
    ensures
        ({
            let k = Recipe::Kof98.input(f);
            let c = Recipe::Cps.input(f);
            &&& k.coin == (if f == 500 { 0x3Fu8 - 3 } else { 0x3F })
            &&& k.sys == (if f == 550 || f == 2302 { 0xFFu8 - 4 } else { 0xFF })
            &&& k.p1 == (if f == 2300 { 0xFFu8 - 16 } else { 0xFF })
            &&& k.p2 == 0xFF && k.ext == 0x0F
            &&& c.coin == (if 300 <= f < 306 { 0xFFu8 - 1 } else if 320 <= f < 326 { 0xFFu8 - 2 } else { 0xFF })
            &&& c.sys == (if 600 <= f < 900 && f % 40 < 6 { 0xFFu8 - 4 } else { 0xFF })
            &&& c.p1 == 0xFF && c.p2 == 0xFF && c.ext == 0x0F
            &&& Recipe::Generic.input(f) == InputState::idle()
        }),
{
}

} // verus!
