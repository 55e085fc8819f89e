//! Validation of byte regions against declared type layouts.
//!
//! - [`layout`]: a [`layout::Registry`] describes a family of types (primitive
//!   leaves, structs with named or positional fields, and tagged unions with
//!   an explicit integer tag); `check_layout` decides whether it is consistent.
//! - [`check`]: `check_bytes` decides whether a region of bytes holds a legal
//!   bit pattern for one of those types, walking fields in declaration order
//!   and stopping at the first failure.
//! - [`error`]: the structured error that records the path to the cause.
//! - [`derive`]: what a declaration's attributes ask for, and what its
//!   validator is made of, or why it gets none.
//! - [`laws`]: properties of validation stated over all inputs.
use vstd::prelude::*;

pub mod error;
pub mod layout;
pub mod check;
pub mod laws;
pub mod derive;
