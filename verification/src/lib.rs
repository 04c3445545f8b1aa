//! Values and passes of the Pen compiler and runtime: byte-string literals,
//! reused records, byte buffers, the resolution of a
//! module's imports, the generic types of a module that need definitions,
//! and the command line of the Ninja module builder.

pub mod position;
pub mod string;
pub mod arc_buffer;
pub mod reused_record;
pub mod ninja_module_builder;
pub mod generic_type_definition;
pub mod imports;
mod fnv_collections;
