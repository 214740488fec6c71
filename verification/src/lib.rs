//! Field-mapping resolution for struct-to-struct conversions.
//!
//! Given a receiver struct and the senders it can be converted from, [`auto_from`] reads
//! the `auto_from_attr` directives on the receiver's fields and resolves, for every
//! sender, where each field's value comes from.

pub mod diagnostic;
pub mod directive;
pub mod expand;
pub mod field;
pub mod laws;
pub mod model;
pub mod outside;
pub mod plan;
pub mod resolve;
pub mod text;

pub use crate::expand::{auto_from, resolve};
