//! Experimental renderer settings, persisted as the `[experimental]` table.

use vstd::prelude::*;

verus! {

/// Feature flags for renderer behavior that is still experimental.
#[derive(Clone, Copy, Debug, PartialEq, Eq)]
pub struct ExperimentalSettings {
    /// Whether reflection probes may contribute SH2 indirect diffuse lighting.
    pub reflection_probe_sh2_enabled: bool,
}

impl Default for ExperimentalSettings {
    /// Every experimental feature starts disabled.
    fn default() -> (r: Self)
        ensures
            !r.reflection_probe_sh2_enabled,
    {
        Self { reflection_probe_sh2_enabled: false }
    }
}

} // verus!
