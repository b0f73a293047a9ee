//! Composes a system-information report (an ascii logo beside a bordered list
//! of readouts) into an off-screen grid of styled cells, and works out which
//! part of that grid is copied onto the terminal, and where.
pub mod config;
pub mod flush;
pub mod glyph;
pub mod grid;
pub mod layout;
pub mod list;
pub mod read;
pub mod readout;
pub mod render;
pub mod scan;
pub mod theme;
