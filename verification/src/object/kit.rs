/// Scene and Performance macro definitions stored in a Kit.
pub mod macros;
/// The shared lock-record table behind Scene and Performance definitions.
pub mod macro_records;
/// Semantic names of macro parameters.
pub mod macro_names;
