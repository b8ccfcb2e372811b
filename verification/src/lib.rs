//! A Game of Life engine on a toroidal grid.
//!
//! The [`Universe`] owns a rectangular grid of [`Cell`]s. It can be seeded
//! from its dimensions or from a flat buffer of cell codes, advanced one
//! generation at a time, resized, and rendered as text. Every operation is
//! specified against a mathematical model of the grid, a sequence of rows,
//! found in [`grid`].

pub mod cell;
pub mod grid;
pub mod laws;
pub mod universe;

pub use cell::Cell;
pub use universe::Universe;
