//! Removes a fixed catalogue of root-only capabilities from the process's
//! capability bounding set, so that permission checks behave for a root
//! process as they would for an unprivileged one.
//!
//! This library holds the verified core: the capability catalogue, the
//! platform-dependent request plan, and a model of the bounding-set
//! reduction together with its laws (idempotence, completeness, order
//! irrelevance, platform neutrality). The thin layer that issues the
//! privileged requests and registers the pre-main hook lives outside it.

use vstd::prelude::*;

pub mod bounding;
pub mod catalogue;
pub mod shim;

verus! {

/// Marker for embedding programs to reference, so that the linker keeps
/// this library (and with it the pre-main registration hook) in the final
/// binary. It does nothing, costs nothing, and never fails.
pub fn set_up() {
}

} // verus!
