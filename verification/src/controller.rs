//! Controllers: status model, reports, drivers and remembered pads.
pub mod battery;
pub mod crc;
pub mod diag;
pub mod driver;
pub mod emulate;
pub mod flashing;
pub mod identity;
pub mod input;
pub mod known;
pub mod lightbar;
pub mod model;
pub mod poll;
pub mod remembered;
pub mod stalls;
pub mod telling;
pub mod wire;
pub mod worker;
