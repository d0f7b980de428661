//! Hooks for the dynamic analysis of WebAssembly, generated on demand.
//!
//! An instrumented module calls a hook wherever something happens that an analysis
//! may want to see: an instruction, the entry of a block, the return of a call. A
//! hook is a function that the module imports, together with the JavaScript that
//! stands behind the import and forwards to the high-level hook of the user.
//!
//! - Hooks exist only for what is asked for, and a hook that was generated once is
//!   used again.
//! - A polymorphic instruction, such as a call, has one hook for each list of types
//!   that it is used with, under a name that the types are part of.
//! - JavaScript has no 64-bit integers, so an `i64` reaches it in two halves.
//!
//! [`HookMap`] is what an instrumentation shares among its threads. [`HookTable`] is
//! the same without the lock, and takes any hook.
pub mod delivery;
pub mod entries;
pub mod generate;
pub mod hook;
pub mod hook_names;
pub mod laws;
pub mod lock;
pub mod map;
pub mod mnemonic;
pub mod order;
pub mod parameter_names;
pub mod reports;
pub mod spelling;
pub mod table;
pub mod text;
pub mod wasm;

pub use crate::hook::{Arg, Hook};
pub use crate::map::HookMap;
pub use crate::table::HookTable;
pub use crate::wasm::{BlockStackElement, Function, FunctionType, Instr, InstrKind, Module, ValType};
