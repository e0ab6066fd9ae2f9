//! Classification of compilation profiles into pipeline stages.
//!
//! A profile names a shading model (`sm_6_0`, `glsl_450`) and may carry a
//! stage prefix (`ps_6_0`, `vs_6_0`). Classification looks for the stage
//! marker anywhere in the profile; a profile without a marker is compiled as
//! a compute shader.

use vstd::prelude::*;
use crate::text::{contains, contains_token};

verus! {

/// The marker that selects the fragment stage.
pub const FRAGMENT_MARKER: &'static str = "ps_";

/// The marker that selects the vertex stage.
pub const VERTEX_MARKER: &'static str = "vs_";

/// The pipeline stage that a profile selects.
#[derive(Clone, Copy, Debug, PartialEq, Eq, Structural)]
pub enum Stage {
    /// The profile holds the fragment marker.
    Fragment,
    /// The profile holds the vertex marker and not the fragment marker.
    Vertex,
    /// The profile holds neither marker.
    Compute,
}

/// The stage of a profile: the fragment marker is looked for first, so a
/// profile that holds both markers is a fragment profile.
pub open spec fn stage_of(profile: Seq<char>) -> Stage {
    if contains_token(profile, FRAGMENT_MARKER@) {
        Stage::Fragment
    } else if contains_token(profile, VERTEX_MARKER@) {
        Stage::Vertex
    } else {
        Stage::Compute
    }
}

/// The entry point that the compiler is told to use for a stage, if the
/// stage fixes one.
pub open spec fn entry_point_of(stage: Stage) -> Option<Seq<char>> {
    match stage {
        Stage::Fragment => Some("fragment"@),
        Stage::Vertex => Some("vertex"@),
        Stage::Compute => None,
    }
}

/// Classifies a profile. Every string is accepted: one that names no stage
/// is a compute profile.
pub fn classify(profile: &str) -> (stage: Stage)
    ensures
        stage == stage_of(profile@),
{
    if contains(profile, FRAGMENT_MARKER) {
        Stage::Fragment
    } else if contains(profile, VERTEX_MARKER) {
        Stage::Vertex
    } else {
        Stage::Compute
    }
}

impl Stage {
    /// The entry point name of this stage, or `None` for the compute stage.
    pub fn entry_point(&self) -> (name: Option<&'static str>)
        ensures
            match name {
                Some(text) => entry_point_of(*self) == Some(text@),
                None => entry_point_of(*self) is None,
            },
    {
        match self {
            Stage::Fragment => Some("fragment"),
            Stage::Vertex => Some("vertex"),
            Stage::Compute => None,
        }
    }
}

} // verus!
