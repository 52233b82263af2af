//! A compiler for native-module specifications: it analyzes the declarations
//! of one source unit, resolves their type references, builds normalized
//! schemas with a content hash, orders the declared types by dependency, and
//! projects types onto the Rust and C++ targets.

pub mod types;
pub mod rust_types;
pub mod cxx_types;
pub mod bridging;
pub mod deps;
pub mod syntax;
pub mod diagnostics;
pub mod convert;
pub mod analyzer;
pub mod schema;
pub mod order;
pub mod text;
pub mod normalize;
pub mod compile;
pub mod utils;
pub mod runtime;
pub mod toolchain;
pub mod suggestion;
pub mod artifacts;
pub mod options;
pub mod laws;
