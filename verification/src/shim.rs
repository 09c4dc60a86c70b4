//! The platform shim: which removal requests a call plans on each target.
//!
//! On the supported kernel family one call plans exactly one request per
//! catalogue entry; on every other platform it plans none, so a call does
//! nothing, never fails, and leaves the process unchanged. The build picks
//! the platform once; callers stay platform-agnostic.

use vstd::prelude::*;

use crate::bounding::remove_each;
use crate::bounding::remove_each_n;
use crate::catalogue::catalogue;
use crate::catalogue::catalogue_spec;

verus! {

/// The target family the library was built for.
#[derive(Clone, Copy, PartialEq, Eq, Structural)]
pub enum Platform {
    /// The supported kernel family, whose kernel holds a capability
    /// bounding set that the privileged request interface can shrink.
    Linux,
    /// Any other target: no bounding set, nothing to remove.
    Other,
}

/// The removal requests that one call to the drop routine issues on the
/// given platform: the whole catalogue on the supported kernel family,
/// none anywhere else.
pub fn planned_requests(platform: Platform) -> (reqs: Vec<u64>)
    ensures
        platform is Linux ==> reqs@ == catalogue_spec(),
        !(platform is Linux) ==> reqs@ == Seq::<u64>::empty(),
{
    match platform {
        Platform::Linux => catalogue(),
        Platform::Other => Vec::new(),
    }
}

/// Platform neutrality: with no planned requests, any number of calls to
/// the drop routine leaves every bounding set exactly as it was.
pub proof fn lemma_no_requests_neutral(s: Seq<u64>, n: nat)
    ensures
        remove_each_n(s, Seq::<u64>::empty(), n) == s,
    decreases n,
{
    let none = Seq::<u64>::empty();
    if n > 0 {
        lemma_no_requests_neutral(s, (n - 1) as nat);
        assert(remove_each_n(s, none, n) == remove_each(remove_each_n(s, none, (n - 1) as nat), none));
        assert(remove_each(s, none) == s);
    }
}

} // verus!
