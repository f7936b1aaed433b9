//! A virtual machine for a fixed 32-bit instruction set: eight registers, a
//! store of word arrays addressed by handle, and whole-state snapshots.
//!
//! The machine never performs input or output itself. Executing an
//! instruction yields an [`model::Action`] that tells the host what to do
//! on its behalf, and the host hands results back through
//! [`machine::Machine::deliver`] and [`machine::Machine::load_from_snapshot`].

pub mod platter;
pub mod model;
pub mod control;
pub mod machine;
pub mod snapshot;
pub mod image;
pub mod laws;
