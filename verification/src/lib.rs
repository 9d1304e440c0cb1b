//! Animation decode and playback engine.
//!
//! Decodes animated raster images (GIF and animated PNG) into a uniform
//! in-memory frame sequence and supports playing the sequence back at the
//! correct cadence: format dispatch by file extension, the animated-PNG
//! canvas disposal and blending state machine, a cyclic frame buffer, a
//! drift-corrected playback clock, and alpha premultiplication for
//! presentation surfaces.

pub mod apng;
pub mod clock;
pub mod compose;
pub mod decoder;
pub mod frame_buffer;
pub mod gif;
pub mod painter;
pub mod types;
