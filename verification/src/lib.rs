//! A small dataflow-graph substrate.
//!
//! Units expose named input and output ports. Every port refers to a buffer
//! cell of a [`port::Store`]; ports that refer to the same cell see each
//! other's writes. Components add a three-phase cycle (`input`, `fire`,
//! `output`) on top of a unit, and modules group components and nested
//! modules under names.
//!
//! The array payload itself is not part of this crate: a [`value::Value`]
//! names an array by its shape and a key, and the caller keeps the arrays.

pub mod shape;
pub mod value;
pub mod error;
pub mod table;
pub mod port;
pub mod unit;
pub mod component;
pub mod module;

