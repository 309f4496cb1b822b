//! A dual-stream logging backend.
//!
//! Each named channel owns two log files: a "latest" file that is truncated on
//! every date rollover and reflects only the current day, and a dated archive
//! file that accumulates across the day. The writer keeps one byte cursor per
//! file so that transient progress lines can be overwritten in place, while
//! permanent records are always appended.
//!
//! The library models the two files as in-memory byte images and proves the
//! bookkeeping over them: cursor bounds, rollover, overwrite and append
//! semantics. The thin shell that mirrors those images to the real files and
//! to the console lives outside the library.

pub mod clock;
pub mod laws;
pub mod log_level;
pub mod log_util;
pub mod render;

pub use log_level::LevelFilter;
pub use log_level::LogLevel;
pub use log_util::LogUtil;
pub use log_util::WriteEffect;
