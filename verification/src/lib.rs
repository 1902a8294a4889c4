//! Typed, lossless models of Analog Rytm `SysEx` objects: the response envelope, Kit Scene and
//! Performance macro definitions, a pattern's parameter-lock pool, and Song rows.

pub mod error;
pub mod object;
pub mod sysex;
pub mod util;
