//! The parts of the window that are plain data: themes and font locations.
pub mod font;
pub mod theme;
