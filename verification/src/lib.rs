//! Renders raster images as rows of ANSI truecolor terminal cells.
//!
//! A decoded image is a [`grid::PixelGrid`]. [`transform::transform`]
//! stretches it to the proportions of a character cell and fits it into the
//! box that [`size`] reads from the command line, resampling with one of the
//! filters of [`filter`]. [`encoder`] then writes one cell for each pixel,
//! line by line. [`settings::configure`] turns the filter name and the size
//! of a command line into the settings of a run.
//!
//! Resampling is done by the `image` crate and the terminal is measured by
//! the `terminal_size` crate; what is taken for granted of the two is stated
//! in [`resample`] and [`terminal`]. Everything else is proved.

pub mod encoder;
pub mod error;
pub mod filter;
pub mod grid;
pub mod resample;
pub mod settings;
pub mod size;
pub mod terminal;
pub mod text;
pub mod transform;
