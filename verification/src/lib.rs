pub mod entry;
pub mod render;
pub mod traverse;
pub mod units;
