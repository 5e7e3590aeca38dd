//! An executable semantics for a small typed control-flow-graph language: an abstract
//! machine that runs programs to normal termination, detected undefined behavior, or
//! rejection of a malformed program.
pub mod integer;
pub mod size;
pub mod ir;
pub mod value;
pub mod machine;
pub mod debug;
pub mod builder;
pub mod fmt;
