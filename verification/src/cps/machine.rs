//! The CPS1 machine without its CPU cores and FM chip.
//!
//! A host runs a frame in steps: [`CpsEmulator::begin_frame`] says how many 68000 cycles the
//! active display and the blanking period take; each period is run in slices
//! ([`CpsEmulator::next_slice`], [`after_slice`]), with [`CpsEmulator::raise_vblank`] between
//! the two; then the sound command is handed on and the sound board runs its frame.

use crate::cps::bus::{CpsBus, CpsBusView};
use crate::cps::config::{find, is_sf2, is_sf2ce, sf2, CpsGame};
use crate::cps::romset::{files_fit, gfx_of, load, load_error, oki_of, program_of, region, z80_of};
use crate::cps::save_state::{overlaid, BusSnapView, CpsSaveState, SoundSnapView, CPS_SAVE_VERSION};
use crate::cps::sound::{CpsSound, SoundView, SAMPLES_PER_FRAME};
use crate::cps::video::{palette_after, CpsVideo, CpsVideoView};
use crate::bytes::pairs_swapped;
use crate::cps::oki::OkiView;
use crate::io::InputState;
use crate::raster::pixels;
use crate::rom_files::RomFile;
use crate::save_state::M68kSnapshot;
use vstd::prelude::*;

verus! {

/// Scanlines of a frame, and the one at which the blanking period starts.
pub const SCANLINES: u64 = 262;
pub const VBLANK_SCANLINE: u64 = 240;

/// Most cycles that the 68000 runs before the interrupt lines are looked at again.
pub const SLICE_CYCLES: i32 = 4000;

// ── Checksums ────────────────────────────────────────────────────────────────

/// Every eighth byte, from byte `k` on, hashed with 64-bit FNV-1a.
pub open spec fn lane_hash(data: Seq<u8>, k: int) -> u64
    decreases data.len(),
{
    if data.len() == 0 {
        0xcbf2_9ce4_8422_2325
    } else {
        let h = lane_hash(data.drop_last(), k);
        if (data.len() - 1) % 8 == k {
            (h ^ (data.last() as u64)).wrapping_mul(0x0000_0100_0000_01b3)
        } else {
            h
        }
    }
}

/// The four 16-bit quarters of a hash folded together.
pub open spec fn folded(h: u64) -> u16 {
    (h ^ (h >> 16) ^ (h >> 32) ^ (h >> 48)) as u16
}

fn fold(h: u64) -> (r: u16)
    ensures
        r == folded(h),
{
    (h ^ (h >> 16) ^ (h >> 32) ^ (h >> 48)) as u16
}

/// Fold a serialised state into eight 16-bit checksums.
pub fn fold_checksums(bytes: &[u8]) -> (r: [u16; 8])
    ensures
        r@ == Seq::new(8, |k: int| folded(lane_hash(bytes@, k))),
{
    let mut lanes: Vec<u64> = vec![0xcbf2_9ce4_8422_2325u64; 8];
    let mut i: usize = 0;
    assert(bytes@.take(0) =~= Seq::<u8>::empty());
    while i < bytes.len()
        invariant
            i <= bytes@.len(),
            lanes@.len() == 8,
            forall|k: int| 0 <= k < 8 ==> #[trigger] lanes@[k] == lane_hash(bytes@.take(i as int), k),
        decreases bytes@.len() - i,
    {
        assert(bytes@.take(i + 1).drop_last() =~= bytes@.take(i as int));
        let k: usize = i % 8;
        lanes.set(k, (lanes[k] ^ bytes[i] as u64).wrapping_mul(0x0000_0100_0000_01b3));
        i = i + 1;
    }
    assert(bytes@.take(i as int) =~= bytes@);
    let r = [
        fold(lanes[0]),
        fold(lanes[1]),
        fold(lanes[2]),
        fold(lanes[3]),
        fold(lanes[4]),
        fold(lanes[5]),
        fold(lanes[6]),
        fold(lanes[7]),
    ];
    assert(r@ =~= Seq::new(8, |k: int| folded(lane_hash(bytes@, k))));
    r
}

// ── Inputs ───────────────────────────────────────────────────────────────────

/// Bit `n` of a byte as a number: 1 while released.
pub open spec fn level_of(p: u8, n: nat) -> int
    decreases n,
{
    if n == 0 { (p % 2) as int } else { level_of(p / 2, (n - 1) as nat) }
}

/// Directions and first three buttons of a player, from the NeoGeo layout (up, down, left,
/// right, A, B, C from bit 0) to that of the board (right, left, down, up, then buttons 1 to
/// 3, with bit 7 high).
pub open spec fn in1_of(p: u8) -> int {
    level_of(p, 3) + level_of(p, 2) * 2 + level_of(p, 1) * 4 + level_of(p, 0) * 8 + level_of(p, 4) * 16
        + level_of(p, 5) * 32 + level_of(p, 6) * 64 + 128
}

/// Buttons 4 to 6 of a player: D, E and F.
pub open spec fn in2_of(d: int, e: int, f: int) -> int {
    d + e * 2 + f * 4
}

/// Coins, service and starts.
pub open spec fn in0_of(s: InputState) -> int {
    0xff - (1 - level_of(s.coin, 0)) - (1 - level_of(s.coin, 1)) * 2 - (1 - level_of(s.coin, 2)) * 8 - (1
        - level_of(s.sys, 0)) * 16 - (1 - level_of(s.sys, 2)) * 32
}

impl CpsBusView {
    /// The bus with the input ports of a frame.
    pub open spec fn with_input(self, s: InputState) -> CpsBusView {
        CpsBusView {
            in0: in0_of(s) as u8,
            in1: (in1_of(s.p2) * 256 + in1_of(s.p1)) as u16,
            in2: (0xff88 + in2_of(level_of(s.p1, 7), level_of(s.ext, 0), level_of(s.ext, 1)) + in2_of(
                level_of(s.p2, 7),
                level_of(s.ext, 2),
                level_of(s.ext, 3),
            ) * 16) as u16,
            ..self
        }
    }
}

fn level_bit(p: u8, n: u8) -> (r: u8)
    requires
        n < 8,
    ensures
        r == level_of(p, n as nat),
        r <= 1,
    decreases n,
{
    if n == 0 { p % 2 } else { level_bit(p / 2, n - 1) }
}

fn to_cps_in1(p: u8) -> (r: u8)
    ensures
        r == in1_of(p),
{
    level_bit(p, 3) + level_bit(p, 2) * 2 + level_bit(p, 1) * 4 + level_bit(p, 0) * 8 + level_bit(p, 4) * 16
        + level_bit(p, 5) * 32 + level_bit(p, 6) * 64 + 128
}

fn to_cps_in2(d: u8, e: u8, f: u8) -> (r: u8)
    requires
        d <= 1,
        e <= 1,
        f <= 1,
    ensures
        r == in2_of(d as int, e as int, f as int),
        r <= 7,
{
    d + e * 2 + f * 4
}

// ── Machine ──────────────────────────────────────────────────────────────────

/// 68000 cycles of the two periods of a frame.
pub struct FramePlan {
    pub active: i32,
    pub vblank: i32,
}

/// What is left of a period after `ran` cycles; every slice uses up at least one.
pub fn after_slice(remaining: i32, ran: i32) -> (r: i32)
    requires
        remaining > 0,
    ensures
        r == remaining - (if ran >= 1 { ran as int } else { 1 }),
        r < remaining,
{
    remaining - (if ran >= 1 { ran } else { 1 })
}

/// A CPS1 machine.
pub struct CpsEmulator {
    pub bus: CpsBus,
    pub video: CpsVideo,
    pub sound: CpsSound,
    pub frame: u64,
    pub audio_total: u64,
}

/// What a [`CpsEmulator`] holds.
#[verifier::ext_equal]
pub struct CpsView {
    pub bus: CpsBusView,
    pub video: CpsVideoView,
    pub sound: SoundView,
    pub frame: u64,
    pub audio_total: u64,
}

/// What of a machine a save state keeps.
#[verifier::ext_equal]
pub struct SavedView {
    pub bus: BusSnapView,
    pub sound: SoundSnapView,
    pub obj: Seq<u16>,
    pub frame: u64,
    pub audio_total: u64,
}

impl View for CpsEmulator {
    type V = CpsView;

    open spec fn view(&self) -> CpsView {
        CpsView {
            bus: self.bus@,
            video: self.video@,
            sound: self.sound@,
            frame: self.frame,
            audio_total: self.audio_total,
        }
    }
}

impl CpsView {
    /// A new machine of a game: memories cleared, no ROMs, nothing counted.
    pub open spec fn power_on(game: CpsGame) -> CpsView {
        CpsView {
            bus: CpsBusView::power_on(game),
            video: CpsVideoView::power_on(),
            sound: SoundView::power_on(),
            frame: 0,
            audio_total: 0,
        }
    }

    /// What a save state of the machine keeps.
    pub open spec fn saved(self) -> SavedView {
        SavedView {
            bus: self.bus.snap(),
            sound: self.sound.snap(),
            obj: self.video.obj,
            frame: self.frame,
            audio_total: self.audio_total,
        }
    }

    /// The machine restored from a save state.
    pub open spec fn restored(self, s: SavedView) -> CpsView {
        CpsView {
            bus: self.bus.restored(s.bus),
            video: CpsVideoView { obj: overlaid(self.video.obj, s.obj), ..self.video },
            sound: self.sound.restored(s.sound),
            frame: s.frame,
            audio_total: s.audio_total,
        }
    }

    /// The sound command handed to the sound board, where one is pending.
    pub open spec fn command_forwarded(self) -> CpsView {
        if self.bus.sound_latch_pending {
            CpsView {
                bus: CpsBusView { sound_latch_pending: false, ..self.bus },
                sound: SoundView { soundlatch: self.bus.sound_latch, ..self.sound },
                ..self
            }
        } else {
            self
        }
    }

    /// The machine with the ROMs of a set: fresh boards, the video board but for its
    /// graphics and the counters as they were.
    pub open spec fn with_files(self, set: Seq<char>, game: CpsGame, files: Seq<RomFile>) -> CpsView {
        CpsView {
            bus: CpsBusView {
                program: pairs_swapped(region(files, program_of(set))),
                ..CpsBusView::power_on(game)
            },
            video: CpsVideoView { gfx: region(files, gfx_of(set)), ..self.video },
            sound: SoundView {
                rom: region(files, z80_of(set)),
                oki: OkiView::power_on(region(files, oki_of(set))),
                ..SoundView::power_on()
            },
            ..self
        }
    }
}

/// The set that is loaded: `sf2` where none is named.
pub open spec fn set_name(name: Option<&str>) -> Seq<char> {
    match name {
        Some(n) => n@,
        None => "sf2"@,
    }
}

/// Why a set cannot be loaded; `None` where it can.
pub open spec fn load_failure(set: Seq<char>, files: Option<&Vec<RomFile>>) -> Option<Seq<char>> {
    if set != "sf2"@ && set != "sf2ce"@ {
        Some("unsupported CPS1 game '"@ + set + "'"@)
    } else {
        load_error(set, files)
    }
}

/// 68000 cycles of a frame.
pub open spec fn cycles_per_frame(game: CpsGame) -> int {
    (game.cpu_clock / 60) as int
}

/// 68000 cycles of the active display.
pub open spec fn active_cycles(game: CpsGame) -> int {
    cycles_per_frame(game) * 240 / 262
}

impl CpsEmulator {
    /// The boards are well-formed.
    pub open spec fn wf(&self) -> bool {
        self.bus@.wf() && self.video.wf() && self.sound@.wf()
    }

    /// A machine set up for `sf2` until ROMs select a game.
    pub fn new() -> (r: Self)
        ensures
            r.wf(),
            is_sf2(r@.bus.game),
            r@ == CpsView::power_on(r@.bus.game),
    {
        CpsEmulator {
            bus: CpsBus::new(sf2()),
            video: CpsVideo::new(),
            sound: CpsSound::new(),
            frame: 0,
            audio_total: 0,
        }
    }

    /// Map an input state to the board's input ports.
    pub fn apply_input(&mut self, s: &InputState)
        ensures
            final(self)@ == (CpsView { bus: old(self)@.bus.with_input(*s), ..old(self)@ }),
            old(self).wf() ==> final(self).wf(),
    {
        self.bus.in1 = to_cps_in1(s.p2) as u16 * 256 + to_cps_in1(s.p1) as u16;
        let in0: u8 = 0xff - (1 - level_bit(s.coin, 0)) - (1 - level_bit(s.coin, 1)) * 2 - (1 - level_bit(
            s.coin,
            2,
        )) * 8 - (1 - level_bit(s.sys, 0)) * 16 - (1 - level_bit(s.sys, 2)) * 32;
        self.bus.in0 = in0;
        let p1_ext: u8 = to_cps_in2(level_bit(s.p1, 7), level_bit(s.ext, 0), level_bit(s.ext, 1));
        let p2_ext: u8 = to_cps_in2(level_bit(s.p2, 7), level_bit(s.ext, 2), level_bit(s.ext, 3));
        self.bus.in2 = 0xff88 + p1_ext as u16 + p2_ext as u16 * 16;
    }

    /// Latch the input for the upcoming frame.
    pub fn set_input(&mut self, state: InputState)
        ensures
            final(self)@ == (CpsView { bus: old(self)@.bus.with_input(state), ..old(self)@ }),
            old(self).wf() ==> final(self).wf(),
    {
        self.apply_input(&state);
    }

    /// Load a set (`sf2` where none is named) from the files of its directory.  Nothing
    /// changes on failure.
    pub fn load_roms(&mut self, name: Option<&str>, files: Option<&Vec<RomFile>>) -> (r: Result<(), String>)
        requires
            files matches Some(f) ==> files_fit(f@),
        ensures
            r is Err <==> load_failure(set_name(name), files) is Some,
            r matches Err(e) ==> *final(self) == *old(self) && load_failure(set_name(name), files) == Some(e@),
            r is Ok ==> files is Some && final(self)@ == old(self)@.with_files(
                set_name(name),
                final(self)@.bus.game,
                files->0@,
            ),
            r is Ok && set_name(name) == "sf2"@ ==> is_sf2(final(self)@.bus.game),
            r is Ok && set_name(name) == "sf2ce"@ ==> is_sf2ce(final(self)@.bus.game),
            old(self).wf() ==> final(self).wf(),
    {
        let set: &str = match name {
            Some(n) => n,
            None => "sf2",
        };
        match find(set) {
            None => {
                let mut e = String::from_str("unsupported CPS1 game '");
                e.append(set);
                e.append("'");
                Err(e)
            },
            Some(game) => match load(set, files) {
                Err(e) => Err(e),
                Ok(roms) => {
                    let mut bus = CpsBus::new(game);
                    bus.program = roms.program;
                    self.bus = bus;
                    self.video.set_gfx(roms.gfx);
                    let mut sound = CpsSound::new();
                    sound.load_z80_rom(roms.z80.as_slice());
                    sound.load_oki_rom(roms.oki.as_slice());
                    self.sound = sound;
                    Ok(())
                },
            },
        }
    }

    /// Cold-reset the boards and counters; the CPU cores and the FM chip are reset beside.
    pub fn reset(&mut self)
        ensures
            final(self)@ == (CpsView {
                sound: old(self)@.sound.after_reset(),
                frame: 0,
                audio_total: 0,
                ..old(self)@
            }),
            old(self).wf() ==> final(self).wf(),
    {
        self.sound.reset();
        self.frame = 0;
        self.audio_total = 0;
    }

    /// A new frame begins: latch the sprites, before the program builds the next table, and
    /// plan the two periods.
    pub fn begin_frame(&mut self) -> (r: FramePlan)
        requires
            old(self).wf(),
        ensures
            r.active == active_cycles(old(self)@.bus.game),
            r.active + r.vblank == cycles_per_frame(old(self)@.bus.game),
            r.active >= 0,
            r.vblank >= 0,
            final(self)@ == (CpsView {
                video: CpsVideoView { obj: CpsVideoView::live_obj(old(self)@.bus), ..old(self)@.video },
                ..old(self)@
            }),
            final(self).wf(),
    {
        let cycles: u32 = self.bus.game.cpu_clock / 60;
        let active: i32 = (cycles as u64 * VBLANK_SCANLINE / SCANLINES) as i32;
        let vblank: i32 = cycles as i32 - active;
        self.video.buffer_sprites(&self.bus);
        FramePlan { active, vblank }
    }

    /// The next slice of a period: the interrupt level that the lines hold and the cycles to
    /// run; `None` once the period is over.  A held line is applied again before every slice
    /// until the program acknowledges it.
    pub fn next_slice(&self, remaining: i32) -> (r: Option<(u32, i32)>)
        ensures
            remaining <= 0 ==> r is None,
            remaining > 0 ==> r == Some(
                (
                    if self@.bus.irq_pending & 0x02 != 0 {
                        4u32
                    } else if self@.bus.irq_pending & 0x01 != 0 {
                        2u32
                    } else {
                        0u32
                    },
                    if remaining <= SLICE_CYCLES { remaining } else { SLICE_CYCLES },
                ),
            ),
    {
        if remaining <= 0 {
            None
        } else {
            Some((self.bus.irq_level(), if remaining <= SLICE_CYCLES { remaining } else { SLICE_CYCLES }))
        }
    }

    /// The blanking period starts: assert the V-blank line.
    pub fn raise_vblank(&mut self)
        ensures
            final(self)@ == (CpsView {
                bus: CpsBusView { irq_pending: old(self)@.bus.irq_pending | 0x01, ..old(self)@.bus },
                ..old(self)@
            }),
            old(self).wf() ==> final(self).wf(),
    {
        self.bus.irq_pending = self.bus.irq_pending | 0x01;
    }

    /// Hand a pending sound command to the sound board.
    pub fn forward_sound_command(&mut self)
        ensures
            final(self)@ == old(self)@.command_forwarded(),
            old(self).wf() ==> final(self).wf(),
    {
        if self.bus.sound_latch_pending {
            self.sound.set_latch(self.bus.sound_latch);
            self.bus.sound_latch_pending = false;
        }
    }

    /// Count a completed frame.  The sample count grows by the same amount for frames that
    /// are shown and for those that are not.
    pub fn complete_frame(&mut self)
        requires
            old(self)@.frame < u64::MAX,
            old(self)@.audio_total + 735 <= u64::MAX,
        ensures
            final(self)@ == (CpsView {
                frame: (old(self)@.frame + 1) as u64,
                audio_total: (old(self)@.audio_total + 735) as u64,
                ..old(self)@
            }),
            old(self).wf() ==> final(self).wf(),
    {
        self.frame = self.frame + 1;
        self.audio_total = self.audio_total + SAMPLES_PER_FRAME as u64;
    }

    /// Draw the frame.  A catch-up step leaves this out.
    pub fn render(&mut self)
        requires
            old(self).wf(),
        ensures
            pixels(final(self)@.video.framebuffer) == old(self)@.video.picture(old(self)@.bus),
            final(self)@ == (CpsView {
                video: CpsVideoView {
                    framebuffer: final(self)@.video.framebuffer,
                    palette: palette_after(old(self)@.video.palette, old(self)@.bus),
                    ..old(self)@.video
                },
                ..old(self)@
            }),
            final(self).wf(),
    {
        self.video.render(&self.bus);
    }

    /// Assemble a save state from the boards and the given core states.
    pub fn build_save_state(&self, cpu: M68kSnapshot, z80_bytes: Vec<u8>, ym_bytes: Vec<u8>) -> (r: CpsSaveState)
        requires
            self.wf(),
        ensures
            r.version == CPS_SAVE_VERSION,
            r.cpu == cpu,
            r.bus@ == self@.saved().bus,
            r.sound@ == self@.saved().sound,
            r.sound.z80_bytes@ == z80_bytes@,
            r.sound.ym_bytes@ == ym_bytes@,
            r.buffered_obj@ == self@.saved().obj,
            r.frame == self@.saved().frame,
            r.audio_total == self@.saved().audio_total,
            r.sound@.wf(),
    {
        CpsSaveState {
            version: CPS_SAVE_VERSION,
            cpu,
            bus: self.bus.snapshot(),
            sound: self.sound.snapshot(z80_bytes, ym_bytes),
            buffered_obj: self.video.snapshot_obj(),
            frame: self.frame,
            audio_total: self.audio_total,
        }
    }

    /// Restore the boards; the CPU cores and the FM chip are restored beside.
    pub fn apply_save_state(&mut self, state: &CpsSaveState)
        ensures
            final(self)@ == old(self)@.restored(
                SavedView {
                    bus: state.bus@,
                    sound: state.sound@,
                    obj: state.buffered_obj@,
                    frame: state.frame,
                    audio_total: state.audio_total,
                },
            ),
            old(self).wf() && state.sound@.wf() ==> final(self).wf(),
    {
        self.bus.restore(&state.bus);
        self.sound.restore(&state.sound);
        self.video.restore_obj(state.buffered_obj.as_slice());
        self.frame = state.frame;
        self.audio_total = state.audio_total;
    }

    /// Borrow the RGB24 picture.
    pub fn framebuffer(&self) -> (r: &[u8])
        ensures
            r@ == self@.video.framebuffer,
    {
        self.video.framebuffer()
    }

    pub fn frame(&self) -> (r: u64)
        ensures
            r == self@.frame,
    {
        self.frame
    }

    pub fn work_ram(&self) -> (r: &[u8])
        ensures
            r@ == self@.bus.work_ram,
    {
        self.bus.work_ram()
    }

    pub fn audio_sample_count(&self) -> (r: u64)
        ensures
            r == self@.audio_total,
    {
        self.audio_total
    }

    /// Width and height of the picture.
    pub fn resolution(&self) -> (r: (u32, u32))
        ensures
            r == (384u32, 224u32),
    {
        (384, 224)
    }
}

impl Default for CpsEmulator {
    fn default() -> (r: Self)
        ensures
            r.wf(),
            is_sf2(r@.bus.game),
            r@ == CpsView::power_on(r@.bus.game),
    {
        Self::new()
    }
}

// ── Laws ─────────────────────────────────────────────────────────────────────

/// With nothing pressed, every input line of the board is released.
pub proof fn idle_input_releases_everything(b: CpsBusView)
    ensures
        b.with_input(InputState::idle()).in0 == 0xff,
        b.with_input(InputState::idle()).in1 == 0xffff,
        b.with_input(InputState::idle()).in2 == 0xffff,
{
    reveal_with_fuel(level_of, 8);
}

/// The players do not disturb each other: what player 2 holds does not show in player 1's
/// lines, and the other way round.
pub proof fn players_have_their_own_lines(b: CpsBusView, s: InputState, p: u8)
    ensures
        b.with_input(InputState { p2: p, ..s }).in1 % 256 == b.with_input(s).in1 % 256,
        b.with_input(InputState { p1: p, ..s }).in1 / 256 == b.with_input(s).in1 / 256,
        b.with_input(InputState { p2: p, ..s }).in0 == b.with_input(s).in0,
        b.with_input(InputState { p1: p, ..s }).in0 == b.with_input(s).in0,
{
    in1_is_a_byte(s.p1);
    in1_is_a_byte(s.p2);
    in1_is_a_byte(p);
}

proof fn level_is_a_bit(p: u8, n: nat)
    ensures
        0 <= level_of(p, n) <= 1,
    decreases n,
{
    if n > 0 {
        level_is_a_bit(p / 2, (n - 1) as nat);
    }
}

proof fn in1_is_a_byte(p: u8)
    ensures
        0 <= in1_of(p) <= 255,
{
    level_is_a_bit(p, 0);
    level_is_a_bit(p, 1);
    level_is_a_bit(p, 2);
    level_is_a_bit(p, 3);
    level_is_a_bit(p, 4);
    level_is_a_bit(p, 5);
    level_is_a_bit(p, 6);
}

/// Showing a frame does not matter to the state: what a save state keeps is the same whether
/// the frame was drawn or skipped.
pub proof fn drawing_leaves_saved_state(v: CpsView, framebuffer: Seq<u8>, palette: Seq<crate::raster::Rgb>)
    ensures
        (CpsView { video: CpsVideoView { framebuffer, palette, ..v.video }, ..v }).saved() == v.saved(),
{
}

/// A state restored on a machine with the same ROMs continues as the machine it was taken
/// from: boards and counters are those of the moment of saving, but for ADPCM output that was
/// not fetched.
pub proof fn cps_save_then_restore(s: CpsView, later: CpsView)
    requires
        s.bus.wf(),
        s.sound.wf(),
        s.video.wf(),
        later.bus.wf(),
        later.sound.wf(),
        later.video.wf(),
        later.bus.program == s.bus.program,
        later.bus.game == s.bus.game,
        later.sound.rom == s.sound.rom,
        later.sound.oki.rom == s.sound.oki.rom,
    ensures
        ({
            let r = later.restored(s.saved());
            &&& r.bus == s.bus
            &&& r.sound == (SoundView { oki: OkiView { ring: Seq::empty(), ..s.sound.oki }, ..s.sound })
            &&& r.video.obj == s.video.obj
            &&& r.frame == s.frame
            &&& r.audio_total == s.audio_total
            &&& r.saved() == s.saved()
        }),
{
    crate::cps::bus::bus_snapshot_restores(s.bus, later.bus);
    crate::cps::sound::sound_snapshot_restores(s.sound, later.sound, 0);
    let r = later.restored(s.saved());
    assert(r.video.obj =~= s.video.obj);
}

} // verus!
