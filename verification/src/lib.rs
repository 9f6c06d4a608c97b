//! A library for building and simulating simple digital logic circuits:
//! gates placed on a canvas, wired together by connections, with boolean
//! signal state propagated one hop along the connection graph whenever a
//! toggle or an edit occurs.
//!
//! Canvas geometry is modelled with integer coordinates; the drawing and
//! windowing layer converts at the edge.

pub mod components;
pub mod config;
pub mod helpers;
pub mod serialize_point;
pub mod state;
pub mod ui;
