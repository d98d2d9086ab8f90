//! Generation plans for the two-phase "declarative, then interactive"
//! argument workflow: a record or union declaration goes in, and a verified
//! description of the companion mirror type, prompt functions, variant
//! chooser and conversions comes out.

pub mod model;
pub mod classify;
pub mod names;
pub mod docs;
pub mod input_args_impl;
pub mod structs;
pub mod enums;
pub mod convert;
pub mod generate;

pub use generate::impl_interactive_clap;
