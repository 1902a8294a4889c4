/// The parameter-lock pool of a pattern.
pub mod plock;
