//! A keyboard-driven screen grid for placing the pointer: labels, geometry,
//! the selection state machine and the show/hide controller.
pub mod control;
pub mod geometry;
pub mod grid;
pub mod overlay;
pub mod selection;
