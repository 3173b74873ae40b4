//! Raster pipeline families a material draw can use.

use vstd::prelude::*;

verus! {

/// Which raster pipeline family renders a material.
#[derive(Clone, Debug, PartialEq, Eq)]
pub enum RasterPipelineKind {
    /// Embedded composed WGSL target, identified by its stem (`shaders/target/<stem>.wgsl`).
    EmbeddedStem(String),
    /// The null fallback pipeline.
    Null,
}

impl View for RasterPipelineKind {
    /// `Some(stem)` for an embedded pipeline, `None` for the null pipeline.
    type V = Option<Seq<char>>;

    open spec fn view(&self) -> Option<Seq<char>> {
        match self {
            RasterPipelineKind::EmbeddedStem(stem) => Some(stem@),
            RasterPipelineKind::Null => None,
        }
    }
}

impl RasterPipelineKind {
    /// A copy of this kind.
    pub fn duplicate(&self) -> (r: Self)
        ensures
            r@ == self@,
    {
        match self {
            RasterPipelineKind::EmbeddedStem(stem) => RasterPipelineKind::EmbeddedStem(stem.clone()),
            RasterPipelineKind::Null => RasterPipelineKind::Null,
        }
    }

    /// Whether two kinds name the same pipeline family.
    pub fn same_as(&self, other: &Self) -> (r: bool)
        ensures
            r == (self@ == other@),
    {
        match (self, other) {
            (RasterPipelineKind::EmbeddedStem(a), RasterPipelineKind::EmbeddedStem(b)) => a.eq(b),
            (RasterPipelineKind::Null, RasterPipelineKind::Null) => true,
            _ => false,
        }
    }

    /// Whether this is the null fallback pipeline.
    pub fn is_null(&self) -> (r: bool)
        ensures
            r == (self@ is None),
    {
        match self {
            RasterPipelineKind::Null => true,
            RasterPipelineKind::EmbeddedStem(_) => false,
        }
    }
}

/// View of an optional string.
pub open spec fn opt_string_view(s: Option<String>) -> Option<Seq<char>> {
    match s {
        Some(t) => Some(t@),
        None => None,
    }
}

/// A copy of an optional string.
pub fn duplicate_opt_string(s: &Option<String>) -> (r: Option<String>)
    ensures
        opt_string_view(r) == opt_string_view(*s),
{
    match s {
        Some(t) => Some(t.clone()),
        None => None,
    }
}

} // verus!
