//! Chiplets-layer trace generation for a STARK-based virtual machine.
//!
//! The library composes the sub-traces of four coprocessors ("chiplets")
//! into one fixed-width table and builds the two randomized auxiliary
//! columns (a multiset "bus" argument and a virtual-table argument) that
//! tie chiplet requests to chiplet responses.

pub mod advice;
pub mod aux_trace;
pub mod chiplets;
pub mod decorators;
pub mod env_ops;
pub mod ext;
pub mod felt;
pub mod host;
pub mod main_trace;
pub mod name_resolver;
pub mod rewrite_check;
pub mod rpo;
pub mod sema;
pub mod u32_ops;
pub mod verify_invoke;
pub mod word;

pub use ext::Ext2;
pub use felt::Felt;
pub use main_trace::MainTrace;
