//! NeoGeo (MVS / AES) board logic.

pub mod board_laws;
pub mod bus;
pub mod bus_laws;
pub mod cart;
pub mod disk_load;
pub mod load_laws;
pub mod lspc;
pub mod machine;
pub mod memory_load;
pub mod rtc;
pub mod rtc_laws;
pub mod video;
pub mod video_laws;
pub mod z80;
