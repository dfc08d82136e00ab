//! Layout and compositing engine for declarative scenes of boxes, lines and
//! text.
//!
//! A scene is a tree of [`graphic::Graphic`] nodes.  Resolving the tree turns
//! the partially specified positions and sizes of its nodes into concrete
//! rectangles, outlines, text rows and shadow geometry; the pixel buffers
//! produced for the nodes are then composited bottom-up with the operations
//! of [`compositing`].
//!
//! Every coordinate and length is an integer count of sub-pixel units,
//! [`metrics::UNITS_PER_PIXEL`] of which make one pixel.

pub mod utils;

pub mod metrics;
pub mod color;
pub mod path;
pub mod effects;
pub mod graphic;
pub mod text;
pub mod arc;
pub mod line;
pub mod container;
pub mod shader;
pub mod compositing;
pub mod canvas;
