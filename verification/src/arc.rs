//! Arcs: a node kind that is described but cannot be drawn yet.

use vstd::prelude::*;
use crate::color::Rgba;
use crate::metrics::Position;
use crate::utils::{AppResult, Fault};

verus! {

/// A circular arc.
#[derive(Clone, Debug)]
pub struct Arc {
    pub radius: i32,
    pub color: Rgba,
    pub position: Position,
    pub width: i32,
}

impl Default for Arc {
    fn default() -> (r: Arc)
        ensures
            r.radius == 0,
            r.color == Rgba(0, 0, 0, 255),
            r.position.x == Some(0i32),
            r.position.y == Some(0i32),
            r.width == crate::metrics::UNITS_PER_PIXEL,
    {
        Arc {
            radius: 0,
            color: Rgba(0, 0, 0, 255),
            position: Position { x: Some(0), y: Some(0) },
            width: crate::metrics::UNITS_PER_PIXEL,
        }
    }
}

impl Arc {
    /// Arcs have no rendering: drawing one always fails, and says so.
    pub fn draw(&self) -> (r: AppResult)
        ensures
            r.is_err(),
            r.unwrap_err().reports(Fault::ArcNotImplemented),
    {
        Err(Fault::ArcNotImplemented.error())
    }
}

} // verus!
