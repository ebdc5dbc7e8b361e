//! Arcade boards with deterministic save states and rollback netplay: the board logic, ROM
//! assembly, save-state framing, replays and session rules.
//!
//! CPU cores, sound chips, windows, files and sockets belong to the host.  It maps its controls
//! to an [`InputState`], runs the boards frame by frame and shows what they draw.

use vstd::prelude::*;

pub mod bits;
pub mod boot;
pub mod bytes;
pub mod capture;
pub mod catalog;
pub mod cli;
pub mod codec;
pub mod cps;
pub mod io;
pub mod keys;
pub mod neogeo;
pub mod netplay;
pub mod pacing;
pub mod platform;
pub mod raster;
pub mod replay;
pub mod rom_files;
pub mod romset;
pub mod save_header;
pub mod save_state;
pub mod text;
pub mod trace;
pub mod zip_files;

pub use boot::{default_capture_path, initial_match_state_paths, CHARSELECT_BIN};
pub use catalog::RomCatalog;
pub use cps::machine::CpsEmulator;
pub use io::InputState;
pub use neogeo::machine::Emulator;
pub use platform::{create_emulator, create_emulator_for_platform, RomSource};
pub use replay::InputDriver;
pub use save_state::SaveState;

verus! {

/// Audio samples per second.
pub const AUDIO_SAMPLE_RATE: u32 = 44_100;

/// Audio samples per video frame at 60 frames a second.
pub const NOMINAL_SAMPLES_PER_FRAME: usize = 735;

} // verus!
