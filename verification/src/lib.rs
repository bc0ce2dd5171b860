pub mod types;
pub mod bindings;
pub mod resolve;
pub mod merge;
pub mod ast;
pub mod env;
pub mod stacklike;
pub mod builtins;
pub mod typecheck;
pub mod compile;
pub mod laws;
pub mod operation_laws;
