//! CPS1 arcade machine: Street Fighter II (`sf2`) and Champion Edition (`sf2ce`).

pub mod board_laws;
pub mod bus;
pub mod config;
pub mod machine;
pub mod oki;
pub mod oki_laws;
pub mod romset;
pub mod save_state;
pub mod sound;
pub mod video;
pub mod video_laws;
