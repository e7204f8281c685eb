//! Generation of typed Rust binding modules ("skeletons") for compiled BPF
//! object artifacts: map/program introspection data is turned into source
//! text encoding the open -> load -> attach lifecycle.

pub mod btf;
pub mod error;
pub mod gen;
pub mod names;
pub mod object;
pub mod render;
