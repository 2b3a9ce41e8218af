//! Components of the library.

pub mod progress_bar;
pub mod table;
