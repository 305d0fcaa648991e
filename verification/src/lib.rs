//! Generation of the WordPress storage manifest, post type and taxonomy
//! registrations and admin templates from a compiled Elephentity schema.
use vstd::prelude::*;

pub mod text;
pub mod assoc;
pub mod json;
pub mod ir;
pub mod rules;
pub mod render;
pub mod storage;
pub mod registration;
pub mod admin;
pub mod protocol;

verus! {
} // verus!
