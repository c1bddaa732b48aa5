//! The mode a renderer is built in.

use vstd::prelude::*;

verus! {

/// Where a renderer keeps its scene data and does its culling. The mode is
/// chosen when the renderer is built and holds for every frame.
#[derive(Debug, Clone, Copy, PartialEq, Eq, Structural)]
pub enum RendererMode {
    /// Resources are bound draw by draw and culling runs on the CPU.
    CPUPowered,
    /// Resources live in GPU-resident bind groups and culling runs in compute
    /// shaders.
    GPUPowered,
}

impl RendererMode {
    /// Whether resources live in GPU-resident bind groups.
    pub open spec fn gpu_resident(self) -> bool {
        self == RendererMode::GPUPowered
    }

    /// Whether resources live in GPU-resident bind groups.
    pub fn is_gpu_resident(self) -> (gpu: bool)
        ensures
            gpu == self.gpu_resident(),
    {
        match self {
            RendererMode::CPUPowered => false,
            RendererMode::GPUPowered => true,
        }
    }
}

} // verus!
