//! An encoder of JavaScript into a handful of characters.

pub mod building_blocks;
