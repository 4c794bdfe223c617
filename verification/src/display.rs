//! What the render targets share.
use vstd::prelude::*;

verus! {

/// An 8-bit colour: red, green, blue.
pub type Rgb = (u8, u8, u8);

/// The colour of an unlit key.
pub const DARK: Rgb = (0, 0, 0);

} // verus!
