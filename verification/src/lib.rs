//! The session core of a boot-logo editor: a catalog of known devices, the
//! state of one editing session, and the operations that move it forward.

pub mod catalog;
pub mod error;
pub mod session;
pub mod source;
pub mod text;
