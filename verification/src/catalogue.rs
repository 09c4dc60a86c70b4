//! The fixed, ordered catalogue of capabilities that the library removes
//! from the process's capability bounding set.
//!
//! The identifiers come from the host kernel's numbering and are immutable:
//! each names one exemption that a root process enjoys over ordinary
//! permission checks.

use vstd::prelude::*;

verus! {

/// Bypass file-ownership checks when changing a file's owner.
pub const CAP_CHOWN: u64 = 0;

/// Bypass discretionary file read, write and execute permission checks.
pub const CAP_DAC_OVERRIDE: u64 = 1;

/// Bypass file read permission checks and directory read/search checks.
pub const CAP_DAC_READ_SEARCH: u64 = 2;

/// Bypass checks that normally require the caller to own the file.
pub const CAP_FOWNER: u64 = 3;

/// Bypass checks on set-user-id and set-group-id bits.
pub const CAP_FSETID: u64 = 4;

/// Bypass the immutable and append-only file attributes.
pub const CAP_LINUX_IMMUTABLE: u64 = 9;

/// Bypass device-node creation restrictions.
pub const CAP_MKNOD: u64 = 27;

/// Bypass mandatory access control checks.
pub const CAP_MAC_OVERRIDE: u64 = 32;

/// The catalogue: the exact identifiers removed by one drop pass, in the
/// order in which their removal requests are issued. The order is stable,
/// though each removal is independent, so it does not affect the outcome.
pub open spec fn catalogue_spec() -> Seq<u64> {
    seq![
        CAP_CHOWN,
        CAP_DAC_OVERRIDE,
        CAP_DAC_READ_SEARCH,
        CAP_FOWNER,
        CAP_FSETID,
        CAP_LINUX_IMMUTABLE,
        CAP_MAC_OVERRIDE,
        CAP_MKNOD,
    ]
}

/// Returns the capability catalogue, exactly as `catalogue_spec` lists it.
pub fn catalogue() -> (caps: Vec<u64>)
    ensures
        caps@ == catalogue_spec(),
{
    let mut caps: Vec<u64> = Vec::new();
    caps.push(CAP_CHOWN);
    caps.push(CAP_DAC_OVERRIDE);
    caps.push(CAP_DAC_READ_SEARCH);
    caps.push(CAP_FOWNER);
    caps.push(CAP_FSETID);
    caps.push(CAP_LINUX_IMMUTABLE);
    caps.push(CAP_MAC_OVERRIDE);
    caps.push(CAP_MKNOD);
    proof {
        assert(caps@ =~= catalogue_spec());
    }
    caps
}

} // verus!
