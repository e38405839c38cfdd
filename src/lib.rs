//! A small retained-mode GUI toolkit: a tree of controls laid out by
//! pluggable strategies, styled per interaction state, and turned into a
//! list of drawing commands for a 2D backend.
use vstd::prelude::*;

pub mod ui;
pub mod utils;
pub mod utils_dbg;

pub use utils::{Color, IPoint, IRect, ISize};

