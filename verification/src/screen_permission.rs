//! Screen-capture permission. Only macOS asks the user for it; elsewhere
//! capture is always allowed and nothing is ever requested.
use vstd::prelude::*;

verus! {

/// Whether the process may capture the screen: always, outside macOS.
pub fn has_access() -> (b: bool)
    ensures
        b,
{
    true
}

/// Asks for screen-capture permission; outside macOS it is already granted.
pub fn request_access() -> (b: bool)
    ensures
        b,
{
    true
}

/// Whether the platform asks the user for screen-capture permission.
pub fn access_required() -> (b: bool)
    ensures
        !b,
{
    false
}

/// `ensure_access`: when permission is required and missing, asks for it
/// once per process; `prompted` is the process-wide flag that records the
/// first request. Returns whether access was requested now.
pub fn ensure_access(prompted: &mut bool) -> (requested: bool)
    ensures
        requested == (access_required_spec() && !*old(prompted)),
        *final(prompted) == (*old(prompted) || access_required_spec()),
{
    if !access_required() || has_access() {
        return false;
    }
    if *prompted {
        return false;
    }
    *prompted = true;
    request_access();
    true
}

/// Outside macOS no permission is required.
pub open spec fn access_required_spec() -> bool {
    false
}

} // verus!
