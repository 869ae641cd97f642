//! The decisions of a USB flash drive tester: how a drive is filled with
//! random files and read back, how it is timed, and what the window's state
//! and log hold. Files, clocks, threads and widgets belong to the program
//! around this library; it hands in what they answered and carries out what
//! the library asks for.

pub mod text;
pub mod files;
pub mod report;
pub mod content;
pub mod random;
pub mod transfer;
pub mod full_test;
pub mod test_runs;
pub mod benchmark;
pub mod bench_runs;
pub mod clock;
pub mod drives;
pub mod fonts;
pub mod usb;
pub mod app_state;
