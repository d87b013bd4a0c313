//! The seal: only this crate can implement the compatibility traits.

use vstd::prelude::*;

verus! {

/// Implemented for exactly the types the compatibility traits extend.
pub trait Sealed {}

impl Sealed for str {}

impl Sealed for char {}

} // verus!
