//! Driver logic for a 152 x 152 black/red e-paper panel.
//!
//! The crate holds the two packed bit planes of the panel image, the pixel
//! write path into them, and the command protocol of the panel controller.
//! It performs no input or output itself: the protocol side queues the line
//! changes, bus writes and waits that the hardware side has to carry out, in
//! order, and decides from each sample of the busy line how a refresh goes on.

pub mod bits;
pub mod epd;
pub mod epd_draw_target;
pub mod error;
pub mod geometry;
pub mod plane;
pub mod signal;

pub use epd::{BusyWait, Epd, EpdInterface};
pub use epd_draw_target::{EpdColor, Pixel};
pub use error::EpdError;
pub use geometry::{locate, BitAddress, Size, DISPLAY_HEIGHT, DISPLAY_WIDTH, FRAME_BYTES};
pub use signal::{Action, Level, Line};
