//! Per-unit incremental Rust compilation in Nix: turns a cargo unit graph
//! into one Nix derivation per rustc invocation.
use vstd::prelude::*;

pub mod build_script;
pub mod closure;
pub mod nix_gen;
pub mod proc_macro;
pub mod rustc_flags;
pub mod shell;
pub mod source_filter;
pub mod text;
pub mod unit_graph;

verus! {

} // verus!
