//! Small utilities: hashing and path normalisation.

pub mod clock;
pub mod consistent_hash;
pub mod hash;
pub mod ids;
pub mod path;
pub mod string_map;
pub mod text;
