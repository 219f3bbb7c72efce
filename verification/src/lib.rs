//! Host-side library for exposing a C-style declared API to sandboxed
//! plugin modules: a declaration tokenizer and parser building a canonical
//! API model, a value-marshaling layer between the host object model and
//! the guest ABI representation, a reference-counted callback-handle
//! registry, and the bookkeeping of the plugin host runtime.

pub mod marshal;
pub mod model;
pub mod parser;
pub mod registry;
pub mod runtime;
pub mod slots;
pub mod token;
pub mod value;
