//! Screenshot tool core: geometry and command-line parsing, calendar
//! arithmetic for file names, pixel conversion and the capture decisions.

pub mod text;
pub mod geometry;
pub mod calendar;
pub mod image;
pub mod cli;
pub mod paths;
pub mod capture;
pub mod x11;
pub mod wayland;
