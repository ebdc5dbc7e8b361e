//! The NeoGeo system without its CPU cores and sound chip: boards, timing policy, frame
//! counting, picture and save states.
//!
//! A host runs a frame as a sequence of batches: it asks [`TimingController::next_batch`]
//! how many 68K cycles to run, runs them, and hands the number back to
//! [`TimingController::after_batch`].

use crate::io::InputState;
use crate::neogeo::bus::{m1_code, ActiveM1Rom, BusView, SystemBus};
use crate::neogeo::lspc::LspcView;
use crate::neogeo::video::{frame, VideoController, VideoView, FRAMEBUFFER_BYTES};
use crate::neogeo::z80::{Z80Inner, Z80View};
use crate::raster::pixels;
use crate::replay::InputDriver;
use crate::save_state::{
    save_state_version, BusSnapshotView, M68kSnapshot, SaveState, Z80SnapshotView,
};
use crate::text::{decimal, hex_upper, push_decimal, push_decimal_aligned, push_hex_upper, right_aligned};
use vstd::prelude::*;

verus! {

/// 68K active-display cycles per frame.
pub const CYCLES_PER_FRAME: i32 = 170_000;

/// 68K cycles of the blanking period that follows.
pub const VBLANK_CYCLES: i32 = 30_000;

/// Interleaving of the CPUs: fixed batches of 68K cycles.
pub struct TimingController {
    pub batch_size: i32,
}

impl TimingController {
    pub fn new() -> (r: Self)
        ensures
            r.batch_size == 100,
    {
        TimingController { batch_size: 100 }
    }

    /// How many 68K cycles to run next; `None` once `rem` is used up.
    pub fn next_batch(&self, rem: i32) -> (r: Option<i32>)
        ensures
            rem <= 0 ==> r is None,
            rem > 0 ==> r == Some(if rem <= self.batch_size { rem } else { self.batch_size }),
    {
        if rem <= 0 {
            None
        } else if rem <= self.batch_size {
            Some(rem)
        } else {
            Some(self.batch_size)
        }
    }

    /// Account for `ran` 68K cycles: the raster timer and the clock advance by them, and at
    /// least one cycle of `rem` is used up.  Returns what remains.
    pub fn after_batch(&self, bus: &mut SystemBus, rem: i32, ran: i32) -> (r: i32)
        requires
            old(bus)@.wf(),
            rem > 0,
            ran >= 0,
            old(bus)@.rtc.sec_count + ran <= u64::MAX,
        ensures
            r == rem - (if ran >= 1 { ran as int } else { 1 }),
            r < rem,
            final(bus)@ == (BusView {
                lspc: old(bus)@.lspc.after_cycles(ran as u32),
                rtc: old(bus)@.rtc.later(ran as u64),
                ..old(bus)@
            }),
            final(bus)@.wf(),
    {
        bus.tick_timer(ran as u32);
        bus.rtc.update(ran as u64);
        rem - (if ran >= 1 { ran } else { 1 })
    }
}

/// Counts the samples that were produced.
pub struct AudioController {
    pub sample_count: u64,
}

impl AudioController {
    pub fn new() -> (r: Self)
        ensures
            r.sample_count == 0,
    {
        AudioController { sample_count: 0 }
    }

    /// Account for `n` samples.
    pub fn produced(&mut self, n: usize)
        requires
            old(self).sample_count + n <= u64::MAX,
        ensures
            final(self).sample_count == old(self).sample_count + n,
    {
        self.sample_count = self.sample_count + n as u64;
    }
}

/// The boards of a NeoGeo system.
pub struct Emulator {
    pub bus: SystemBus,
    pub sound: Z80Inner,
    pub audio: AudioController,
    pub video: VideoController,
    pub framebuffer: Vec<u8>,
    /// Active input mode: live play, recording, or replay.
    pub input_driver: InputDriver,
    /// Frames stepped.
    pub frame: u64,
    pub timing: TimingController,
    /// ADPCM ROMs, kept so that a sound chip can be made anew.
    pub ym2610_adpcm_a: Vec<u8>,
    pub ym2610_adpcm_b: Vec<u8>,
    /// Last successfully loaded set.
    pub rom_set_name: Option<String>,
}

/// What an [`Emulator`] holds.
#[verifier::ext_equal]
pub struct EmulatorView {
    pub bus: BusView,
    pub sound: Z80View,
    pub sample_count: u64,
    pub frame_count: usize,
    pub framebuffer: Seq<u8>,
    pub input_driver: InputDriver,
    pub frame: u64,
    pub batch_size: i32,
    pub adpcm_a: Seq<u8>,
    pub adpcm_b: Seq<u8>,
    pub rom_set_name: Option<Seq<char>>,
}

/// The text of an optional string.
pub open spec fn opt_text(v: Option<String>) -> Option<Seq<char>> {
    match v {
        Some(x) => Some(x@),
        None => None,
    }
}

impl View for Emulator {
    type V = EmulatorView;

    open spec fn view(&self) -> EmulatorView {
        EmulatorView {
            bus: self.bus@,
            sound: self.sound@,
            sample_count: self.audio.sample_count,
            frame_count: self.video.frame_count,
            framebuffer: self.framebuffer@,
            input_driver: self.input_driver,
            frame: self.frame,
            batch_size: self.timing.batch_size,
            adpcm_a: self.ym2610_adpcm_a@,
            adpcm_b: self.ym2610_adpcm_b@,
            rom_set_name: opt_text(self.rom_set_name),
        }
    }
}

impl BusView {
    /// What the renderer sees of the bus.
    pub open spec fn video(self) -> VideoView {
        VideoView {
            vram: self.lspc.vram,
            pal_ram: self.lspc.pal_ram,
            sfix_rom: self.roms.sfix_rom,
            s_rom: self.roms.s_rom,
            c_rom: self.roms.c_rom,
            pal_bank: self.lspc.pal_bank,
            brd_fix: self.lspc.brd_fix,
            auto_anim_frame: self.lspc.auto_anim_frame,
            lo_rom: self.roms.lo_rom,
            shadow: self.lspc.shadow,
        }
    }

    /// At the start of the blanking period: the animation advances, then the V-blank
    /// interrupt is raised.
    pub open spec fn at_vblank(self) -> BusView {
        let l = self.lspc.after_vbl();
        BusView { lspc: LspcView { pending_irq: l.pending_irq | 0x04, ..l }, ..self }
    }
}

impl Z80View {
    /// The M1 ROM that a snapshot's code names, put in place; the present one stays where
    /// the named one is not loaded.
    pub open spec fn with_named_rom(self, code: u8, bus: BusView) -> Z80View {
        if code == m1_code(ActiveM1Rom::Sm1) && bus.roms.sm1_rom.len() > 0 {
            Z80View { m1_rom: bus.roms.sm1_rom, ..self }
        } else if code == m1_code(ActiveM1Rom::Cart) && bus.roms.m1_rom.len() > 0 {
            Z80View { m1_rom: bus.roms.m1_rom, ..self }
        } else {
            self
        }
    }
}

impl EmulatorView {
    /// A new system: no ROMs, live input, a black picture.
    pub open spec fn power_on() -> EmulatorView {
        EmulatorView {
            bus: BusView::power_on(),
            sound: Z80View::power_on(),
            sample_count: 0,
            frame_count: 0,
            framebuffer: Seq::new(FRAMEBUFFER_BYTES as nat, |i: int| 0u8),
            input_driver: InputDriver::Live,
            frame: 0,
            batch_size: 100,
            adpcm_a: Seq::empty(),
            adpcm_b: Seq::empty(),
            rom_set_name: None,
        }
    }

    /// Boards and framebuffer have their sizes.
    pub open spec fn wf(self) -> bool {
        &&& self.bus.wf()
        &&& self.sound.wf()
        &&& self.framebuffer.len() == FRAMEBUFFER_BYTES
    }

    /// The boards after a cold reset; the sound CPU starts on the system program, where
    /// there is one.
    pub open spec fn after_reset(self) -> EmulatorView {
        let sound = if self.bus.roms.sm1_rom.len() > 0 {
            self.sound.with_rom(self.bus.roms.sm1_rom)
        } else {
            self.sound
        };
        EmulatorView { bus: self.bus.after_reset(), sound: sound.after_reset(), ..self }
    }

    /// The sound CPU's part of a save state, given its serialised registers.
    pub open spec fn sound_saved(self, cpu: Seq<u8>) -> Z80SnapshotView {
        Z80SnapshotView {
            cpu_bytes: cpu,
            wram: self.sound.wram,
            bank_f000: self.sound.bank_f000,
            bank_e000: self.sound.bank_e000,
            bank_c000: self.sound.bank_c000,
            bank_8000: self.sound.bank_8000,
            nmi_enabled: self.sound.nmi_enabled,
            nmi_requested: self.sound.nmi_requested,
            nmi_fire: self.sound.nmi_fire,
            int_line: self.sound.int_line,
            subcycle: self.sound.subcycle,
            cycle_target: self.sound.cycle_target,
            active_m1_rom: m1_code(self.sound.active_m1(self.bus)),
        }
    }

    /// The boards restored from a save state: counters of the presentation start anew.
    pub open spec fn restored(self, bus: BusSnapshotView, z80: Z80SnapshotView, frame: u64) -> EmulatorView {
        let b = self.bus.restored(bus);
        EmulatorView {
            bus: b,
            sound: self.sound.restored(z80).with_named_rom(z80.active_m1_rom, b),
            frame,
            sample_count: 0,
            frame_count: 0,
            ..self
        }
    }
}

/// What of a save state the CPU cores and the sound chip are to be restored from.
pub struct CoreState {
    pub m68k: M68kSnapshot,
    /// The Z80's serialised registers.
    pub z80_cpu: Vec<u8>,
    pub ym2610: Vec<u8>,
    /// The state had the current format version.
    pub version_matches: bool,
}

impl Emulator {
    /// A system with no ROMs loaded and all RAM cleared.
    pub fn new() -> (r: Self)
        ensures
            r@ == EmulatorView::power_on(),
            r@.wf(),
    {
        let fb: Vec<u8> = vec![0u8; FRAMEBUFFER_BYTES];
        assert(fb@ =~= Seq::new(FRAMEBUFFER_BYTES as nat, |i: int| 0u8));
        Emulator {
            bus: SystemBus::new(),
            sound: Z80Inner::new(),
            audio: AudioController::new(),
            video: VideoController::new(),
            framebuffer: fb,
            input_driver: InputDriver::live(),
            frame: 0,
            timing: TimingController::new(),
            ym2610_adpcm_a: Vec::new(),
            ym2610_adpcm_b: Vec::new(),
            rom_set_name: None,
        }
    }

    pub fn bus_mut(&mut self) -> (r: &mut SystemBus)
        ensures
            r@ == old(self)@.bus,
            final(self)@ == (EmulatorView { bus: final(r)@, ..old(self)@ }),
    {
        &mut self.bus
    }

    /// Keep the ADPCM ROMs for the sound chip.
    pub fn load_adpcm_bytes(&mut self, adpcm_a: &[u8], adpcm_b: &[u8])
        ensures
            final(self)@ == (EmulatorView {
                adpcm_a: adpcm_a@,
                adpcm_b: adpcm_b@,
                ..old(self)@
            }),
    {
        self.ym2610_adpcm_a = crate::bytes::copied(adpcm_a);
        self.ym2610_adpcm_b = crate::bytes::copied(adpcm_b);
    }

    /// Load battery-backed SRAM; `true` where the size fits.
    pub fn load_sram(&mut self, data: &[u8]) -> (r: bool)
        ensures
            r == (data@.len() == old(self)@.bus.sram.len()),
            final(self)@ == (if r {
                EmulatorView { bus: BusView { sram: data@, ..old(self)@.bus }, ..old(self)@ }
            } else {
                old(self)@
            }),
    {
        if data.len() == self.bus.backup_ram().len() {
            self.bus.sram.data = crate::bytes::copied(data);
            true
        } else {
            false
        }
    }

    /// Cold-reset the boards; the CPU cores and the sound chip are reset beside.
    pub fn reset(&mut self)
        ensures
            final(self)@ == old(self)@.after_reset(),
            old(self)@.wf() ==> final(self)@.wf(),
    {
        if self.bus.roms.sm1_rom.len() > 0 {
            self.sound.set_m1_rom(self.bus.roms.sm1_rom.as_slice());
        }
        self.bus.reset();
        self.sound.reset();
    }

    /// Latch the input for the upcoming frame.
    pub fn set_input(&mut self, state: InputState)
        ensures
            final(self)@ == (EmulatorView {
                bus: old(self)@.bus.input_applied(state),
                ..old(self)@
            }),
            old(self)@.wf() ==> final(self)@.wf(),
    {
        self.bus.apply_input(state);
    }

    /// A new frame begins.
    pub fn begin_frame(&mut self)
        requires
            old(self)@.frame < u64::MAX,
        ensures
            final(self)@ == (EmulatorView { frame: (old(self)@.frame + 1) as u64, ..old(self)@ }),
    {
        self.frame = self.frame + 1;
    }

    /// The active display is over: advance the auto-animation, then raise the V-blank
    /// interrupt.
    pub fn vblank(&mut self)
        ensures
            final(self)@ == (EmulatorView { bus: old(self)@.bus.at_vblank(), ..old(self)@ }),
            old(self)@.wf() ==> final(self)@.wf(),
    {
        self.bus.lspc.tick_vbl();
        self.bus.raise_irq(0x04);
    }

    /// Draw the completed frame.  A catch-up step leaves this out; nothing else depends on
    /// it.
    pub fn render(&mut self)
        requires
            old(self)@.wf(),
            old(self)@.frame_count < usize::MAX,
        ensures
            pixels(final(self)@.framebuffer) == frame(old(self)@.bus.video()),
            final(self)@ == (EmulatorView {
                framebuffer: final(self)@.framebuffer,
                frame_count: (old(self)@.frame_count + 1) as usize,
                ..old(self)@
            }),
            final(self)@.wf(),
    {
        let snap = self.bus.video_snapshot();
        assert(snap@ == self.bus@.video());
        self.video.render(self.framebuffer.as_mut_slice(), &snap);
    }

    /// Borrow the RGB24 picture.
    pub fn framebuffer(&self) -> (r: &[u8])
        ensures
            r@ == self@.framebuffer,
    {
        self.framebuffer.as_slice()
    }

    pub fn backup_ram(&self) -> (r: &[u8])
        ensures
            r@ == self@.bus.sram,
    {
        self.bus.backup_ram()
    }

    pub fn work_ram(&self) -> (r: &[u8])
        ensures
            r@ == self@.bus.wram,
    {
        self.bus.work_ram()
    }

    pub fn frame(&self) -> (r: u64)
        ensures
            r == self@.frame,
    {
        self.frame
    }

    pub fn audio_sample_count(&self) -> (r: u64)
        ensures
            r == self@.sample_count,
    {
        self.audio.sample_count
    }

    pub fn video_frame_count(&self) -> (r: usize)
        ensures
            r == self@.frame_count,
    {
        self.video.frame_count
    }

    /// Width and height of the picture.
    pub fn resolution(&self) -> (r: (u32, u32))
        ensures
            r == (304u32, 224u32),
    {
        (304, 224)
    }

    /// Enable the operator menu at the next boot (DIP switch 1, active low).
    pub fn enable_operator_menu(&mut self)
        ensures
            final(self)@ == (EmulatorView {
                bus: BusView { hw_dips: old(self)@.bus.hw_dips & 0xFE, ..old(self)@.bus },
                ..old(self)@
            }),
    {
        self.bus.hw_dips = self.bus.hw_dips & 0xFE;
    }

    /// Present as AES/home (bit 7 of `REG_STATUS_B` low).
    pub fn enable_aes_home(&mut self)
        ensures
            final(self)@ == (EmulatorView {
                bus: BusView {
                    presentation_aes: Some(true),
                    input: InputState {
                        sys: old(self)@.bus.input.sys & 0x7F,
                        ..old(self)@.bus.input
                    },
                    ..old(self)@.bus
                },
                ..old(self)@
            }),
    {
        self.bus.set_presentation_aes(true);
    }

    /// Present as MVS/arcade (bit 7 of `REG_STATUS_B` high).
    pub fn enable_mvs_presentation(&mut self)
        ensures
            final(self)@ == (EmulatorView {
                bus: BusView {
                    presentation_aes: Some(false),
                    input: InputState {
                        sys: old(self)@.bus.input.sys | 0x80,
                        ..old(self)@.bus.input
                    },
                    ..old(self)@.bus
                },
                ..old(self)@
            }),
    {
        self.bus.set_presentation_aes(false);
    }

    /// The set whose boot savestate is looked for: the loaded one, or the default.
    pub fn boot_state_set(&self) -> (r: String)
        ensures
            r@ == (match self@.rom_set_name {
                Some(n) => n,
                None => "kof98"@,
            }),
    {
        match &self.rom_set_name {
            Some(n) => String::from_str(n.as_str()),
            None => String::from_str("kof98"),
        }
    }

    /// Assemble a save state from the boards and the given core states.
    pub fn build_save_state(&self, m68k: M68kSnapshot, z80_cpu: Vec<u8>, ym2610: Vec<u8>) -> (r: SaveState)
        ensures
            r.version@ == save_state_version(),
            r.frame == self@.frame,
            r.m68k == m68k,
            r.bus@ == self@.bus.captured(),
            r.z80@ == self@.sound_saved(z80_cpu@),
            r.ym2610@ == ym2610@,
    {
        SaveState {
            version: SaveState::current_version(),
            frame: self.frame,
            m68k,
            z80: self.sound.snapshot(z80_cpu, &self.bus),
            bus: self.bus.snapshot(),
            ym2610,
        }
    }

    /// Restore the boards; what the cores are to be restored from is handed back.
    pub fn apply_save_state(&mut self, state: SaveState) -> (r: CoreState)
        ensures
            final(self)@ == old(self)@.restored(state.bus@, state.z80@, state.frame),
            old(self)@.wf() && state.bus@.wf() ==> final(self)@.wf(),
            r.m68k == state.m68k,
            r.z80_cpu@ == state.z80@.cpu_bytes,
            r.ym2610@ == state.ym2610@,
            r.version_matches == (state.version@ == save_state_version()),
    {
        let version_matches = state.version_matches();
        let active: u8 = state.z80.active_m1_rom;
        self.bus.restore(state.bus);
        self.sound.restore(&state.z80);
        self.frame = state.frame;
        self.audio = AudioController::new();
        self.video = VideoController::new();
        if active == ActiveM1Rom::Sm1.code() && self.bus.roms.sm1_rom.len() > 0 {
            self.sound.restore_m1_rom(self.bus.roms.sm1_rom.as_slice());
        } else if active == ActiveM1Rom::Cart.code() && self.bus.roms.m1_rom.len() > 0 {
            self.sound.restore_m1_rom(self.bus.roms.m1_rom.as_slice());
        }
        CoreState {
            m68k: state.m68k,
            z80_cpu: state.z80.cpu_bytes,
            ym2610: state.ym2610,
            version_matches,
        }
    }
}

impl Default for Emulator {
    fn default() -> (r: Self)
        ensures
            r@ == EmulatorView::power_on(),
            r@.wf(),
    {
        Self::new()
    }
}

/// Non-zero bytes.
pub open spec fn nonzero_count(s: Seq<u8>) -> nat
    decreases s.len(),
{
    if s.len() == 0 {
        0
    } else {
        nonzero_count(s.drop_last()) + (if s.last() != 0 { 1nat } else { 0nat })
    }
}

fn count_nonzero(data: &Vec<u8>) -> (r: usize)
    ensures
        r == nonzero_count(data@),
{
    let mut n: usize = 0;
    let mut i: usize = 0;
    assert(data@.take(0) =~= Seq::<u8>::empty());
    while i < data.len()
        invariant
            i <= data@.len(),
            n <= i,
            n == nonzero_count(data@.take(i as int)),
        decreases data@.len() - i,
    {
        assert(data@.take(i + 1).drop_last() =~= data@.take(i as int));
        if data[i] != 0 {
            n = n + 1;
        }
        i = i + 1;
    }
    assert(data@.take(i as int) =~= data@);
    n
}

/// A big-endian word of some memory.
pub open spec fn word_of(s: Seq<u8>, at: int) -> int {
    s[at] * 256 + s[at + 1]
}

fn word_in(data: &Vec<u8>, at: usize) -> (r: u32)
    requires
        at < 0x20000,
        at + 1 < data@.len(),
    ensures
        r == word_of(data@, at as int),
        r < 65536,
{
    data[at] as u32 * 256 + data[at + 1] as u32
}

/// The one-line boot-progress report: memory fill, BIOS state machine and the registers of
/// its self-test.
pub open spec fn bios_report(bus: BusView, pc: u32) -> Seq<char> {
    "PC=$"@ + hex_upper(pc as nat, 6) + "  pal_nz="@ + right_aligned(
        decimal(nonzero_count(bus.lspc.pal_ram)),
        4,
    ) + "  vram_nz="@ + right_aligned(decimal(nonzero_count(bus.lspc.vram)), 5) + "  bg=$"@ + hex_upper(
        word_of(bus.lspc.pal_ram, 0) as nat,
        4,
    ) + "  fix[0]=$"@ + hex_upper(word_of(bus.lspc.vram, 0xE000) as nat, 4) + "  sm="@
        + right_aligned(decimal(word_of(bus.wram, 0xFCD8) as nat), 2) + "  swp="@ + decimal(
        if bus.swp_rom { 1 } else { 0 },
    ) + "  d00038=$"@ + hex_upper(bus.sram[0x38] as nat, 2) + "  s47=$"@ + hex_upper(
        bus.sram[0x47] as nat,
        2,
    ) + "  s124=$"@ + hex_upper(word_of(bus.sram, 0x124) as nat, 4) + "  FAIL: test="@ + decimal(
        word_of(bus.wram, 0xFD08) as nat,
    ) + " a0=$"@ + hex_upper(
        (word_of(bus.wram, 0xFD00) * 65536 + word_of(bus.wram, 0xFD02)) as nat,
        8,
    ) + " exp=$"@ + hex_upper(word_of(bus.wram, 0xFD04) as nat, 4) + " act=$"@ + hex_upper(
        word_of(bus.wram, 0xFD06) as nat,
        4,
    )
}

impl Emulator {
    /// One-line boot-progress report for debug logging; `pc` is the 68000's program
    /// counter.
    pub fn bios_debug_info(&self, pc: u32) -> (r: String)
        requires
            self@.wf(),
        ensures
            r@ == bios_report(self@.bus, pc),
    {
        let bus = &self.bus;
        let wram = &bus.wram.data;
        let sram = &bus.sram.data;
        let mut s = String::from_str("PC=$");
        push_hex_upper(&mut s, pc, 6);
        s.append("  pal_nz=");
        push_decimal_aligned(&mut s, count_nonzero(&bus.lspc.pal_ram) as u64, 4);
        s.append("  vram_nz=");
        push_decimal_aligned(&mut s, count_nonzero(&bus.lspc.vram) as u64, 5);
        s.append("  bg=$");
        push_hex_upper(&mut s, word_in(&bus.lspc.pal_ram, 0), 4);
        s.append("  fix[0]=$");
        push_hex_upper(&mut s, word_in(&bus.lspc.vram, 0xE000), 4);
        s.append("  sm=");
        push_decimal_aligned(&mut s, word_in(wram, 0xFCD8) as u64, 2);
        s.append("  swp=");
        push_decimal(&mut s, if bus.swp_rom { 1 } else { 0 });
        s.append("  d00038=$");
        push_hex_upper(&mut s, sram[0x38] as u32, 2);
        s.append("  s47=$");
        push_hex_upper(&mut s, sram[0x47] as u32, 2);
        s.append("  s124=$");
        push_hex_upper(&mut s, word_in(sram, 0x124), 4);
        s.append("  FAIL: test=");
        push_decimal(&mut s, word_in(wram, 0xFD08) as u64);
        s.append(" a0=$");
        push_hex_upper(&mut s, word_in(wram, 0xFD00) * 65536 + word_in(wram, 0xFD02), 8);
        s.append(" exp=$");
        push_hex_upper(&mut s, word_in(wram, 0xFD04), 4);
        s.append(" act=$");
        push_hex_upper(&mut s, word_in(wram, 0xFD06), 4);
        s
    }
}

/// Every batch uses up cycles, so a frame's run ends.
pub proof fn batches_end(rem: int, ran: int)
    requires
        rem > 0,
        ran >= 0,
    ensures
        rem - (if ran >= 1 { ran } else { 1 }) < rem,
{
}

/// A state restored on a machine with the same ROMs, cartridge and presentation continues
/// as the machine it was taken from: boards, frame number, the sound CPU's ROM and a queued swap
/// of it are those of the moment of saving.  The sound CPU runs one of the loaded ROMs, or has
/// none on either machine; a queued swap queues one of them.
pub proof fn save_then_restore(s: EmulatorView, later: EmulatorView, cpu: Seq<u8>)
    requires
        s.wf(),
        later.wf(),
        s.bus.queues_loaded_rom(),
        later.bus.roms == s.bus.roms,
        later.bus.cart == s.bus.cart,
        later.bus.presentation_aes == s.bus.presentation_aes,
        (s.bus.cart.chip.restored)(later.bus.chip, (s.bus.cart.chip.saved)(s.bus.chip)) == s.bus.chip,
        s.sound.m1_rom.len() == 0 ==> later.sound.m1_rom.len() == 0,
        s.sound.m1_rom.len() > 0 ==> s.sound.m1_rom == s.bus.roms.sm1_rom || s.sound.m1_rom
            == s.bus.roms.m1_rom,
    ensures
        ({
            let r = later.restored(s.bus.captured(), s.sound_saved(cpu), s.frame);
            &&& r.bus == s.bus
            &&& r.sound == s.sound
            &&& r.frame == s.frame
        }),
{
    crate::neogeo::bus_laws::snapshot_restores(s.bus, later.bus);
    if s.sound.m1_rom.len() == 0 {
        assert(later.sound.m1_rom =~= s.sound.m1_rom);
    }
}

/// For a game's own cartridge the chip's part needs no premise: two machines that run one game
/// from the same ROMs, under the same presentation, are in the same state after the one restores
/// what the other saved.
pub proof fn game_save_then_restore(name: Seq<char>, s: EmulatorView, later: EmulatorView, cpu: Seq<u8>)
    requires
        s.wf(),
        later.wf(),
        s.bus.runs_game(name),
        later.bus.runs_game(name),
        later.bus.roms == s.bus.roms,
        later.bus.presentation_aes == s.bus.presentation_aes,
        s.sound.m1_rom.len() == 0 ==> later.sound.m1_rom.len() == 0,
        s.sound.m1_rom.len() > 0 ==> s.sound.m1_rom == s.bus.roms.sm1_rom || s.sound.m1_rom
            == s.bus.roms.m1_rom,
    ensures
        ({
            let r = later.restored(s.bus.captured(), s.sound_saved(cpu), s.frame);
            &&& r.bus == s.bus
            &&& r.sound == s.sound
            &&& r.frame == s.frame
        }),
{
    crate::neogeo::cart::game_chip_restores(name, s.bus.chip, later.bus.chip);
    save_then_restore(s, later, cpu);
}

/// Showing a frame or not makes no difference to the game: pictures, samples and their
/// counters are no part of a save state, so a frame that is shown and one that only brings the
/// state forward save the same.
pub proof fn showing_leaves_saved_state(s: EmulatorView, framebuffer: Seq<u8>, frame_count: usize, sample_count: u64)
    ensures
        ({
            let shown = EmulatorView { framebuffer, frame_count, sample_count, ..s };
            &&& shown.bus.captured() == s.bus.captured()
            &&& shown.sound == s.sound
            &&& shown.sound.active_m1(shown.bus) == s.sound.active_m1(s.bus)
            &&& shown.frame == s.frame
        }),
{
}

} // verus!
