//! The runtime value stack.

pub mod stack_runtime;
