//! The runtime core of a Go-like scripting language: instruction encoding,
//! type metadata, the runtime value model and the bytecode emitter.

pub mod arena;
pub mod emit;
pub mod gc;
pub mod instruction;
pub mod metadata;
pub mod names;
pub mod objects;
pub mod text;
pub mod value;
