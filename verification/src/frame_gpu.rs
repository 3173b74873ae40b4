//! Bookkeeping of the frame-global GPU resources: the lights storage size check, and the
//! versions that decide when the frame bind group must be rebuilt after the cluster buffers or
//! the reflection-probe resources change.

use vstd::prelude::*;

verus! {

/// Why the frame-global GPU resources could not be created.
#[derive(Clone, Copy, Debug, PartialEq, Eq, Structural)]
pub enum FrameGpuInitError {
    /// The lights storage buffer would exceed a device limit.
    LightsStorageExceedsLimits { size: u64 },
    /// The initial cluster buffers could not be allocated.
    ClusterEnsureFailed,
    /// The cluster buffers were not available after allocation.
    ClusterGetBuffersFailed,
}

/// Checks that a lights storage buffer of `lights_size` bytes fits both the storage binding
/// limit and the buffer size limit.
pub fn check_lights_storage_size(
    lights_size: u64,
    max_storage_buffer_binding_size: u64,
    max_buffer_size: u64,
) -> (r: Result<(), FrameGpuInitError>)
    ensures
        r == (if lights_size > max_storage_buffer_binding_size || lights_size > max_buffer_size {
            Err(FrameGpuInitError::LightsStorageExceedsLimits { size: lights_size })
        } else {
            Ok(())
        }),
{
    if lights_size > max_storage_buffer_binding_size || lights_size > max_buffer_size {
        return Err(FrameGpuInitError::LightsStorageExceedsLimits { size: lights_size });
    }
    Ok(())
}

/// Versions of the resources the frame bind group was last built from.
#[derive(Clone, Copy, Debug, PartialEq, Eq, Structural)]
pub struct FrameBindVersions {
    /// Cluster buffer cache version the bind group references.
    pub cluster_bind_version: u64,
    /// Reflection-probe resource version the bind group references.
    pub reflection_probe_version: u64,
}

impl FrameBindVersions {
    /// Versions right after creation: the initial cluster cache version and no reflection-probe
    /// resources yet.
    pub fn new(cluster_cache_version: u64) -> (r: Self)
        ensures
            r.cluster_bind_version == cluster_cache_version,
            r.reflection_probe_version == 0,
    {
        FrameBindVersions { cluster_bind_version: cluster_cache_version, reflection_probe_version: 0 }
    }

    /// After the cluster cache was asked to cover the viewport: `None` when it could not
    /// (`ensured` is false), else whether the bind group was recreated. It is recreated when the
    /// cache version moved and the cluster buffers are present (`buffers_present`); the bound
    /// version then follows the cache. With the buffers missing the rebuild is skipped and the
    /// bound version stays, so a later sync retries it.
    pub fn sync_cluster_viewport(
        &mut self,
        ensured: bool,
        cache_version: u64,
        buffers_present: bool,
    ) -> (r: Option<bool>)
        ensures
            (*final(self), r) == after_cluster_sync(
                *old(self),
                ensured,
                cache_version,
                buffers_present,
            ),
    {
        if !ensured {
            return None;
        }
        if cache_version == self.cluster_bind_version || !buffers_present {
            return Some(false);
        }
        self.cluster_bind_version = cache_version;
        Some(true)
    }

    /// Current reflection-probe resource version for per-view bind-group invalidation.
    pub fn skybox_specular_version(&self) -> (r: u64)
        ensures
            r == self.reflection_probe_version,
    {
        self.reflection_probe_version
    }

    /// Adopts offered reflection-probe resources of version `offered`: returns whether the bind
    /// group must be rebuilt, which is when resources are offered under a new version.
    pub fn sync_reflection_probe_specular_resources(&mut self, offered: Option<u64>) -> (r: bool)
        ensures
            (*final(self), r) == after_probe_sync(*old(self), offered),
    {
        match offered {
            None => false,
            Some(v) => {
                if v == self.reflection_probe_version {
                    false
                } else {
                    self.reflection_probe_version = v;
                    true
                }
            },
        }
    }
}

/// Versions and verdict after a cluster sync.
pub open spec fn after_cluster_sync(
    v: FrameBindVersions,
    ensured: bool,
    cache_version: u64,
    buffers_present: bool,
) -> (FrameBindVersions, Option<bool>) {
    if !ensured {
        (v, None)
    } else if cache_version != v.cluster_bind_version && buffers_present {
        (FrameBindVersions { cluster_bind_version: cache_version, ..v }, Some(true))
    } else {
        (v, Some(false))
    }
}

/// Versions and verdict after a reflection-probe sync.
pub open spec fn after_probe_sync(v: FrameBindVersions, offered: Option<u64>) -> (
    FrameBindVersions,
    bool,
) {
    match offered {
        Some(ver) => if ver != v.reflection_probe_version {
            (FrameBindVersions { reflection_probe_version: ver, ..v }, true)
        } else {
            (v, false)
        },
        None => (v, false),
    }
}

/// Syncing twice with the same cluster cache version and buffers rebuilds at most once: the
/// second sync reports no rebuild and changes nothing.
pub proof fn lemma_cluster_sync_idempotent(
    v: FrameBindVersions,
    cache_version: u64,
    buffers_present: bool,
)
    ensures
        ({
            let first = after_cluster_sync(v, true, cache_version, buffers_present);
            after_cluster_sync(first.0, true, cache_version, buffers_present) == (
                first.0,
                Some(false),
            )
        }),
{
}

/// A sync that finds the cluster buffers missing recreates nothing and keeps the bound version,
/// so the next sync with the buffers present and the cache moved recreates the bind group.
pub proof fn lemma_missing_buffers_retry(v: FrameBindVersions, cache_version: u64)
    requires
        cache_version != v.cluster_bind_version,
    ensures
        after_cluster_sync(v, true, cache_version, false) == (v, Some(false)),
        after_cluster_sync(after_cluster_sync(v, true, cache_version, false).0, true, cache_version, true).1
            == Some(true),
{
}

/// Offering the same reflection-probe resources twice rebuilds at most once.
pub proof fn lemma_probe_sync_idempotent(v: FrameBindVersions, offered: Option<u64>)
    ensures
        after_probe_sync(after_probe_sync(v, offered).0, offered) == (
            after_probe_sync(v, offered).0,
            false,
        ),
{
}

/// Number of light rows uploaded: at most `max_lights`; zero means a single zeroed row is
/// written instead so the buffer never holds stale lights.
pub fn lights_upload_count(light_count: usize, max_lights: usize) -> (r: usize)
    ensures
        r == (if light_count < max_lights {
            light_count
        } else {
            max_lights
        }),
{
    if light_count < max_lights {
        light_count
    } else {
        max_lights
    }
}

} // verus!
