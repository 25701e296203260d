//! The values that the asset store hands out for text and boolean assets.

use vstd::prelude::*;

verus! {

/// A text produced by an asset.
pub struct Text(pub String);

/// A yes/no produced by an asset.
pub struct Boolean(pub bool);

} // verus!
