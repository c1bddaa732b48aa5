//! Which bind groups a frame assembles, and what each view's bundle holds.

use crate::instruction::TextureHandle;
use crate::mode::RendererMode;
use vstd::prelude::*;

verus! {

/// A bind group that is assembled once per frame and shared by all views.
#[derive(Debug, Clone, Copy, PartialEq, Eq, Structural)]
pub enum BindGroup {
    /// The object data that GPU culling reads.
    ObjectInput,
    /// Samplers, camera and other global resources.
    General,
    /// The material data of a GPU-resident renderer.
    Material,
    /// The shadow maps of the directional lights.
    Shadow,
    /// The skybox texture.
    Skybox,
}

/// The texture that the skybox bind group holds.
#[derive(Debug, Clone, Copy, PartialEq, Eq)]
pub enum SkyboxSource {
    /// The view of this cube texture.
    Texture(TextureHandle),
    /// The null view of the cube texture pool, which is made first if the pool
    /// has none yet.
    Null,
}

/// One member of the bundle of bind groups that the recordings of a view share.
#[derive(Debug, Clone, Copy, PartialEq, Eq, Structural)]
pub enum Slot {
    General,
    /// The view's draw records, as culling left them.
    Object,
    Material,
    Textures2D,
    TexturesCube,
    Shadow,
    Skybox,
    /// The view's camera transform and the ambient term.
    Uniform,
}

/// The frame-wide bind groups of a mode, in the order they are assembled in. The
/// groups of object input and of materials exist only where resources are
/// GPU-resident.
pub open spec fn frame_groups_of(mode: RendererMode) -> Seq<BindGroup> {
    if mode.gpu_resident() {
        seq![
            BindGroup::ObjectInput,
            BindGroup::General,
            BindGroup::Material,
            BindGroup::Shadow,
            BindGroup::Skybox,
        ]
    } else {
        seq![BindGroup::General, BindGroup::Shadow, BindGroup::Skybox]
    }
}

/// The members of a view's bundle. Materials and the aggregate groups of the two
/// texture pools are members only where resources are GPU-resident.
pub open spec fn bundle_of(mode: RendererMode) -> Seq<Slot> {
    if mode.gpu_resident() {
        seq![
            Slot::General,
            Slot::Object,
            Slot::Material,
            Slot::Textures2D,
            Slot::TexturesCube,
            Slot::Shadow,
            Slot::Skybox,
            Slot::Uniform,
        ]
    } else {
        seq![Slot::General, Slot::Object, Slot::Shadow, Slot::Skybox, Slot::Uniform]
    }
}

/// The frame-wide bind groups to assemble, in order.
pub fn frame_groups(mode: RendererMode) -> (groups: Vec<BindGroup>)
    ensures
        groups@ == frame_groups_of(mode),
{
    let mut groups: Vec<BindGroup> = Vec::new();
    if mode.is_gpu_resident() {
        groups.push(BindGroup::ObjectInput);
    }
    groups.push(BindGroup::General);
    if mode.is_gpu_resident() {
        groups.push(BindGroup::Material);
    }
    groups.push(BindGroup::Shadow);
    groups.push(BindGroup::Skybox);
    groups
}

/// The members of the bundle that the recordings of a view share.
pub fn bundle(mode: RendererMode) -> (slots: Vec<Slot>)
    ensures
        slots@ == bundle_of(mode),
{
    let gpu = mode.is_gpu_resident();
    let mut slots: Vec<Slot> = Vec::new();
    slots.push(Slot::General);
    slots.push(Slot::Object);
    if gpu {
        slots.push(Slot::Material);
        slots.push(Slot::Textures2D);
        slots.push(Slot::TexturesCube);
    }
    slots.push(Slot::Shadow);
    slots.push(Slot::Skybox);
    slots.push(Slot::Uniform);
    slots
}

/// What the skybox bind group holds: the background texture if one is set, and
/// the null view otherwise.
pub fn skybox_source(background: Option<TextureHandle>) -> (source: SkyboxSource)
    ensures
        source == match background {
            Some(handle) => SkyboxSource::Texture(handle),
            None => SkyboxSource::Null,
        },
{
    match background {
        Some(handle) => SkyboxSource::Texture(handle),
        None => SkyboxSource::Null,
    }
}

} // verus!
