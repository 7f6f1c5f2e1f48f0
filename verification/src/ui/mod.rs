//! State of the controls around the result grid.

pub mod button;
pub mod controls;
pub mod input;
pub mod list;
pub mod message;
