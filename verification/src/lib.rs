//! Vanity key grinding: search for a seed whose derived key, written in
//! base58, begins and ends with chosen text.

pub mod grind;
pub mod hash;
pub mod key;
pub mod pattern;
pub mod seed;
