use vstd::prelude::*;
use crate::strmap::str_eq;

verus! {

/// The three mutually exclusive spoofing strategies.
#[derive(Clone, Copy, PartialEq, Eq, Structural, Debug)]
pub enum SpoofMode {
    /// Build-identity fields only; the module unloads afterwards.
    Lite,
    /// Build fields plus a property-read interception layer; the module
    /// stays resident.
    Full,
    /// Build fields plus property writes through the privileged companion;
    /// the module unloads afterwards.
    Resetprop,
}

/// Whether a declared mode string is one of the three recognized modes,
/// matched exactly and case-sensitively.
pub open spec fn spec_mode_known(s: Seq<char>) -> bool {
    s == "lite"@ || s == "full"@ || s == "resetprop"@
}

/// The strategy a declared mode string selects; anything not recognized
/// degrades to the least invasive strategy.
pub open spec fn spec_mode_of(s: Seq<char>) -> SpoofMode {
    if s == "full"@ {
        SpoofMode::Full
    } else if s == "resetprop"@ {
        SpoofMode::Resetprop
    } else {
        SpoofMode::Lite
    }
}

impl SpoofMode {
    /// Maps a declared mode string to its strategy: `"lite"`, `"full"` and
    /// `"resetprop"` match exactly and case-sensitively; any other string
    /// falls back to `Lite`, never an error.
    pub fn from_mode_str(value: &str) -> (r: Self)
        ensures
            r == spec_mode_of(value@),
    {
        if str_eq(value, "full") {
            SpoofMode::Full
        } else if str_eq(value, "resetprop") {
            SpoofMode::Resetprop
        } else {
            SpoofMode::Lite
        }
    }
}

/// Whether `value` names a recognized mode; callers may log a warning for
/// an unrecognized one before falling back to `Lite`.
pub fn mode_is_known(value: &str) -> (r: bool)
    ensures
        r == spec_mode_known(value@),
{
    str_eq(value, "lite") || str_eq(value, "full") || str_eq(value, "resetprop")
}

} // verus!
