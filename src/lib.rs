//! A small ECMAScript runtime core: a resumable bytecode machine for
//! generator functions on an index-addressed, compacting heap.

pub mod abstract_operations;
pub mod builtins;
pub mod context;
pub mod execution;
pub mod function_definitions;
pub mod gc;
pub mod generator;
pub mod heap;
pub mod rootable;
pub mod value;
pub mod vm;
