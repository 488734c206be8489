use vstd::prelude::*;

use super::formatting::Formatting;

verus! {

/// A marker sign drawn before an option, in its own formatting.
pub struct OptionMarkerStyle {
    pub marker: String,
    pub formatting: Formatting,
}

} // verus!
