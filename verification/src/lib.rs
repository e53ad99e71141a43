//! A scalar wave field on a rectangular grid, advanced in discrete ticks by an
//! explicit finite-difference scheme with reflecting edges.
//!
//! Every sample is a fixed-point number (see [`fixed`]), so a tick is an
//! exact function of the state before it: the two strategies that compute it
//! agree in every bit, and a flat field at rest stays exactly as it is.
//!
//! - [`field`] holds the engines, the model of the grid that they are verified
//!   against, the generators of initial grids, and how a sample is shown.
//! - [`game`] decides what a frame does with the field.
//! - [`monitor`], [`debugger`] and [`control_panel`] hold the figures and the
//!   text of the overlays.
//!
//! The library reads no keyboard, draws nothing and measures no time.
pub mod control_panel;
pub mod debugger;
pub mod field;
pub mod fixed;
pub mod game;
pub mod monitor;
