//! Object models. Kits, patterns and songs are called objects.

/// Kit-level structures.
pub mod kit;
/// Pattern-level structures.
pub mod pattern;
/// The Song object with its rows and pattern positions.
pub mod song;
/// The Song row and pattern-position tables as plain values.
pub mod song_table;
