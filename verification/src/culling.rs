//! Culling: one output per view, filled by one of two strategies.

use crate::mode::RendererMode;
use vstd::prelude::*;

verus! {

/// The eye that the scene is culled and recorded for.
#[derive(Debug, Clone, Copy, PartialEq, Eq, Structural)]
pub enum Viewpoint {
    /// The shadow-casting light at this position among the frame's lights.
    Shadow(usize),
    /// The primary camera.
    Camera,
}

/// How the visible draws of a view are found.
#[derive(Debug, Clone, Copy, PartialEq, Eq, Structural)]
pub enum CullStrategy {
    /// Visibility tests run on the worker pool and write the draw records
    /// themselves; the frame waits until they are done.
    Cpu,
    /// Dispatches are recorded into the primary encoder; the order of
    /// encoding within the one submission makes them precede their readers.
    Gpu,
}

/// The buffer of draw records that culling a view fills, as far as its size is
/// concerned: one record for every object that may be visible.
#[derive(Debug, Clone, Copy, PartialEq, Eq, Structural)]
pub struct CullOutput {
    pub view: Viewpoint,
    pub records: usize,
}

/// The strategy of a mode.
pub open spec fn strategy_of(mode: RendererMode) -> CullStrategy {
    match mode {
        RendererMode::CPUPowered => CullStrategy::Cpu,
        RendererMode::GPUPowered => CullStrategy::Gpu,
    }
}

/// The strategy that a renderer of the given mode culls with, in every frame and
/// for every view.
pub fn strategy(mode: RendererMode) -> (chosen: CullStrategy)
    ensures
        chosen == strategy_of(mode),
{
    match mode {
        RendererMode::CPUPowered => CullStrategy::Cpu,
        RendererMode::GPUPowered => CullStrategy::Gpu,
    }
}

/// Sizes the output of culling `view` for a scene of `object_count` objects.
/// Nothing is queued on the GPU by this.
pub fn prepare(object_count: usize, view: Viewpoint) -> (output: CullOutput)
    ensures
        output == (CullOutput { view, records: object_count }),
{
    CullOutput { view, records: object_count }
}

/// The name that the culling of a view goes by.
pub fn label(view: Viewpoint) -> (name: &'static str)
    ensures
        name@ == match view {
            Viewpoint::Shadow(_) => "shadow pass"@,
            Viewpoint::Camera => "camera pass"@,
        },
{
    match view {
        Viewpoint::Shadow(_) => "shadow pass",
        Viewpoint::Camera => "camera pass",
    }
}

} // verus!
