//! A typed, stack-based compiler intermediate representation together with a
//! verified validator: structural type unification, per-instruction operand
//! stack simulation, and block/control-flow checking.  Around the core stand
//! the front-end helpers that produce comparable input: a small C declaration
//! parser and a semantic pass for a Rust-like surface language.

pub mod abivec;
pub mod cparse;
pub mod driver;
pub mod ops;
pub mod ir;
pub mod sema;
pub mod validate;
