//! Parsing of the text that platform diagnostic utilities print, into a
//! snapshot of the local machine: host name, processor, graphics adapter,
//! memory use and operating-system version.

pub mod decimal;
pub mod linux;
pub mod macos;
pub mod model;
pub mod pattern;
pub mod platform;
pub mod text;
pub mod windows;
