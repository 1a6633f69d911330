//! Rendering of protobuf value trees in the protobuf text format.
//!
//! The crate models the text format as specification functions over the value tree
//! (module `render`) and proves that the executable [`writer::Writer`] appends
//! exactly that text to its sink.
pub mod number;
pub mod escape;
pub mod wire;
pub mod unknown;
pub mod descriptor;
pub mod value;
pub mod options;
pub mod any;
pub mod render;
pub mod writer;
pub mod format;
pub mod error;
pub mod laws;
pub mod layout;
