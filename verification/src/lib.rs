//! Process and module introspection for Windows, without the I/O.
//!
//! The crate holds the rules of the introspection layer as plain functions
//! on plain values: how names are cut out of fixed buffers, how numbers are
//! laid out in another process's memory, how a version resource is
//! addressed and read, how status codes become errors, and where the
//! controls of the process dialog go.  The calls into the operating system
//! are made by the program around this library, which hands it what the
//! operating system answered.

pub mod byte_order;
pub mod error;
pub mod layout;
pub mod memory;
pub mod util;
pub mod version;
pub mod wide;
