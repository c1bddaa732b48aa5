//! The commands that change the scene, and what applying them asks of the pools.
//!
//! Producers queue [`Instruction`]s between frames. At the start of a frame the
//! queued batch is applied in the order it was queued: every instruction but a
//! change of options becomes exactly one [`Mutation`] of a resource pool, and a
//! change of options is set aside until all pool mutations have been made.

use vstd::prelude::*;

verus! {

/// Names a mesh in the mesh pool.
#[derive(Debug, Clone, Copy, PartialEq, Eq, Hash)]
pub struct MeshHandle(pub usize);

/// Names a texture in one of the two texture pools.
#[derive(Debug, Clone, Copy, PartialEq, Eq, Hash)]
pub struct TextureHandle(pub usize);

/// Names a material in the material pool.
#[derive(Debug, Clone, Copy, PartialEq, Eq, Hash)]
pub struct MaterialHandle(pub usize);

/// Names an object in the object pool.
#[derive(Debug, Clone, Copy, PartialEq, Eq, Hash)]
pub struct ObjectHandle(pub usize);

/// Names a light in the directional light pool.
#[derive(Debug, Clone, Copy, PartialEq, Eq, Hash)]
pub struct DirectionalLightHandle(pub usize);

/// The data that instructions carry to the pools. The applier moves these values
/// from an instruction into its mutation and never looks inside them.
pub trait SceneTypes {
    type Mesh;
    type TextureFormat;
    type Material;
    type MaterialChange;
    type Object;
    type Transform;
    type DirectionalLight;
    type DirectionalLightChange;
    type Direction;
    type Options;
    type CameraData;
}

/// A texture as its producer describes it. A cube texture has six faces of
/// `width` by `height` texels each.
#[derive(Debug, PartialEq, Eq)]
pub struct Texture<F> {
    pub data: Vec<u8>,
    pub format: F,
    pub width: u32,
    pub height: u32,
    pub mip_levels: u32,
}

/// The two texture pools.
#[derive(Debug, Clone, Copy, PartialEq, Eq)]
pub enum TextureKind {
    /// Two-dimensional textures.
    Flat,
    /// Cube maps.
    Cube,
}

/// The shape of the GPU texture that a [`Texture`] is uploaded into, and of the
/// view that the pool keeps of it.
#[derive(Debug, Clone, Copy, PartialEq, Eq)]
pub struct TextureUpload {
    pub width: u32,
    pub height: u32,
    /// Array layers: one for a flat texture, six for a cube.
    pub layers: u32,
    pub mip_level_count: u32,
    pub sample_count: u32,
    /// Whether the view is a cube view over all layers, or the default view.
    pub cube_view: bool,
}

/// A queued command.
#[allow(inconsistent_fields)]
#[derive(Debug, PartialEq)]
pub enum Instruction<P: SceneTypes> {
    AddMesh { handle: MeshHandle, mesh: P::Mesh },
    RemoveMesh { handle: MeshHandle },
    AddTexture2D { handle: TextureHandle, texture: Texture<P::TextureFormat> },
    RemoveTexture2D { handle: TextureHandle },
    AddTextureCube { handle: TextureHandle, texture: Texture<P::TextureFormat> },
    RemoveTextureCube { handle: TextureHandle },
    AddMaterial { handle: MaterialHandle, material: P::Material },
    ChangeMaterial { handle: MaterialHandle, change: P::MaterialChange },
    RemoveMaterial { handle: MaterialHandle },
    AddObject { handle: ObjectHandle, object: P::Object },
    SetObjectTransform { handle: ObjectHandle, transform: P::Transform },
    RemoveObject { handle: ObjectHandle },
    AddDirectionalLight { handle: DirectionalLightHandle, light: P::DirectionalLight },
    /// Changes a light. `direction` is the new direction of the light, if the
    /// change gives it one.
    ChangeDirectionalLight {
        handle: DirectionalLightHandle,
        change: P::DirectionalLightChange,
        direction: Option<P::Direction>,
    },
    RemoveDirectionalLight { handle: DirectionalLightHandle },
    SetOptions { options: P::Options },
    SetCameraData { data: P::CameraData },
    SetBackgroundTexture { handle: TextureHandle },
    ClearBackgroundTexture,
}

/// The instructions queued since the last frame, in the order they were queued.
///
/// Producers only ever append. A frame takes the whole batch at once and leaves
/// an empty one behind, so that producers are never held up while a batch is
/// applied.
pub struct PendingBatch<P: SceneTypes> {
    queued: Vec<Instruction<P>>,
}

impl<P: SceneTypes> View for PendingBatch<P> {
    type V = Seq<Instruction<P>>;

    closed spec fn view(&self) -> Seq<Instruction<P>> {
        self.queued@
    }
}

impl<P: SceneTypes> PendingBatch<P> {
    /// A batch with nothing queued.
    pub fn new() -> (batch: Self)
        ensures
            batch@ == Seq::<Instruction<P>>::empty(),
    {
        PendingBatch { queued: Vec::new() }
    }

    /// Queues an instruction behind those already queued.
    pub fn push(&mut self, instruction: Instruction<P>)
        ensures
            final(self)@ == old(self)@.push(instruction),
    {
        self.queued.push(instruction);
    }

    /// The number of instructions queued.
    pub fn len(&self) -> (n: usize)
        ensures
            n == self@.len(),
    {
        self.queued.len()
    }

    /// Takes everything that is queued, in the order it was queued, and leaves an
    /// empty batch behind.
    pub fn swap(&mut self) -> (batch: Vec<Instruction<P>>)
        ensures
            batch@ == old(self)@,
            final(self)@ == Seq::<Instruction<P>>::empty(),
    {
        let mut batch: Vec<Instruction<P>> = Vec::new();
        std::mem::swap(&mut self.queued, &mut batch);
        batch
    }
}

/// What a pool is asked to do. Every instruction but a change of options becomes
/// one of these.
#[allow(inconsistent_fields)]
#[derive(Debug, PartialEq)]
pub enum Mutation<P: SceneTypes> {
    FillMesh { handle: MeshHandle, mesh: P::Mesh },
    RemoveMesh { handle: MeshHandle },
    /// Upload `texture` in the shape `upload` and keep it under `handle` in the
    /// pool of its kind.
    FillTexture {
        kind: TextureKind,
        handle: TextureHandle,
        upload: TextureUpload,
        texture: Texture<P::TextureFormat>,
    },
    RemoveTexture { kind: TextureKind, handle: TextureHandle },
    FillMaterial { handle: MaterialHandle, material: P::Material },
    ChangeMaterial { handle: MaterialHandle, change: P::MaterialChange },
    RemoveMaterial { handle: MaterialHandle },
    FillObject { handle: ObjectHandle, object: P::Object },
    SetObjectTransform { handle: ObjectHandle, transform: P::Transform },
    RemoveObject { handle: ObjectHandle },
    FillDirectionalLight { handle: DirectionalLightHandle, light: P::DirectionalLight },
    /// Update the light from `change` and, if `aim` holds a direction, point
    /// the light's shadow camera along it.
    ChangeDirectionalLight {
        handle: DirectionalLightHandle,
        change: P::DirectionalLightChange,
        aim: Option<P::Direction>,
    },
    RemoveDirectionalLight { handle: DirectionalLightHandle },
    /// Replace the camera data, under the options that are in force while the
    /// batch is applied.
    SetCameraData { data: P::CameraData },
    /// Make `texture` the skybox, or have no skybox.
    SetBackground { texture: Option<TextureHandle> },
}

/// What applying one instruction comes to.
pub enum Effect<P: SceneTypes> {
    /// A pool is to make this mutation now.
    Mutate(Mutation<P>),
    /// These options are to replace the current ones, but only once every
    /// mutation of the batch has been made.
    Stage(P::Options),
}

/// The mutations of a batch in the order they are to be made, and the options
/// that the batch leaves staged.
pub struct Applied<P: SceneTypes> {
    pub mutations: Vec<Mutation<P>>,
    pub new_options: Option<P::Options>,
}

/// Layers of a texture of the given kind.
pub open spec fn layers_of(kind: TextureKind) -> u32 {
    match kind {
        TextureKind::Flat => 1,
        TextureKind::Cube => 6,
    }
}

/// The upload of a texture of `width` by `height` texels with `mip_levels` mip
/// levels into the pool of `kind`: single-sampled, with all its mip levels, one
/// layer and the default view for a flat texture, six layers and a cube view
/// for a cube.
pub open spec fn upload_of(kind: TextureKind, width: u32, height: u32, mip_levels: u32) -> TextureUpload {
    TextureUpload {
        width,
        height,
        layers: layers_of(kind),
        mip_level_count: mip_levels,
        sample_count: 1,
        cube_view: kind == TextureKind::Cube,
    }
}

impl<P: SceneTypes> Instruction<P> {
    /// An instruction that adds a texture must give it at least one mip level;
    /// every other instruction is well formed as it is.
    pub open spec fn well_formed(self) -> bool {
        match self {
            Instruction::AddTexture2D { texture, .. } => texture.mip_levels >= 1,
            Instruction::AddTextureCube { texture, .. } => texture.mip_levels >= 1,
            _ => true,
        }
    }

    /// What applying the instruction comes to.
    pub open spec fn effect(self) -> Effect<P> {
        match self {
            Instruction::AddMesh { handle, mesh } => Effect::Mutate(Mutation::FillMesh { handle, mesh }),
            Instruction::RemoveMesh { handle } => Effect::Mutate(Mutation::RemoveMesh { handle }),
            Instruction::AddTexture2D { handle, texture } => Effect::Mutate(
                Mutation::FillTexture {
                    kind: TextureKind::Flat,
                    handle,
                    upload: upload_of(TextureKind::Flat, texture.width, texture.height, texture.mip_levels),
                    texture,
                },
            ),
            Instruction::RemoveTexture2D { handle } => Effect::Mutate(
                Mutation::RemoveTexture { kind: TextureKind::Flat, handle },
            ),
            Instruction::AddTextureCube { handle, texture } => Effect::Mutate(
                Mutation::FillTexture {
                    kind: TextureKind::Cube,
                    handle,
                    upload: upload_of(TextureKind::Cube, texture.width, texture.height, texture.mip_levels),
                    texture,
                },
            ),
            Instruction::RemoveTextureCube { handle } => Effect::Mutate(
                Mutation::RemoveTexture { kind: TextureKind::Cube, handle },
            ),
            Instruction::AddMaterial { handle, material } => Effect::Mutate(
                Mutation::FillMaterial { handle, material },
            ),
            Instruction::ChangeMaterial { handle, change } => Effect::Mutate(
                Mutation::ChangeMaterial { handle, change },
            ),
            Instruction::RemoveMaterial { handle } => Effect::Mutate(Mutation::RemoveMaterial { handle }),
            Instruction::AddObject { handle, object } => Effect::Mutate(Mutation::FillObject { handle, object }),
            Instruction::SetObjectTransform { handle, transform } => Effect::Mutate(
                Mutation::SetObjectTransform { handle, transform },
            ),
            Instruction::RemoveObject { handle } => Effect::Mutate(Mutation::RemoveObject { handle }),
            Instruction::AddDirectionalLight { handle, light } => Effect::Mutate(
                Mutation::FillDirectionalLight { handle, light },
            ),
            Instruction::ChangeDirectionalLight { handle, change, direction } => Effect::Mutate(
                Mutation::ChangeDirectionalLight { handle, change, aim: direction },
            ),
            Instruction::RemoveDirectionalLight { handle } => Effect::Mutate(
                Mutation::RemoveDirectionalLight { handle },
            ),
            Instruction::SetOptions { options } => Effect::Stage(options),
            Instruction::SetCameraData { data } => Effect::Mutate(Mutation::SetCameraData { data }),
            Instruction::SetBackgroundTexture { handle } => Effect::Mutate(
                Mutation::SetBackground { texture: Some(handle) },
            ),
            Instruction::ClearBackgroundTexture => Effect::Mutate(Mutation::SetBackground { texture: None }),
        }
    }

    /// Whether the instruction is well formed.
    pub fn is_well_formed(&self) -> (ok: bool)
        ensures
            ok == self.well_formed(),
    {
        match self {
            Instruction::AddTexture2D { texture, .. } => texture.mip_levels >= 1,
            Instruction::AddTextureCube { texture, .. } => texture.mip_levels >= 1,
            _ => true,
        }
    }

    /// Applies the instruction: says what it asks of the pools, or which
    /// options it stages.
    pub fn apply(self) -> (effect: Effect<P>)
        requires
            self.well_formed(),
        ensures
            effect == self.effect(),
    {
        match self {
            Instruction::AddMesh { handle, mesh } => Effect::Mutate(Mutation::FillMesh { handle, mesh }),
            Instruction::RemoveMesh { handle } => Effect::Mutate(Mutation::RemoveMesh { handle }),
            Instruction::AddTexture2D { handle, texture } => {
                let upload = plan_upload(TextureKind::Flat, texture.width, texture.height, texture.mip_levels);
                Effect::Mutate(Mutation::FillTexture { kind: TextureKind::Flat, handle, upload, texture })
            },
            Instruction::RemoveTexture2D { handle } => Effect::Mutate(
                Mutation::RemoveTexture { kind: TextureKind::Flat, handle },
            ),
            Instruction::AddTextureCube { handle, texture } => {
                let upload = plan_upload(TextureKind::Cube, texture.width, texture.height, texture.mip_levels);
                Effect::Mutate(Mutation::FillTexture { kind: TextureKind::Cube, handle, upload, texture })
            },
            Instruction::RemoveTextureCube { handle } => Effect::Mutate(
                Mutation::RemoveTexture { kind: TextureKind::Cube, handle },
            ),
            Instruction::AddMaterial { handle, material } => Effect::Mutate(
                Mutation::FillMaterial { handle, material },
            ),
            Instruction::ChangeMaterial { handle, change } => Effect::Mutate(
                Mutation::ChangeMaterial { handle, change },
            ),
            Instruction::RemoveMaterial { handle } => Effect::Mutate(Mutation::RemoveMaterial { handle }),
            Instruction::AddObject { handle, object } => Effect::Mutate(Mutation::FillObject { handle, object }),
            Instruction::SetObjectTransform { handle, transform } => Effect::Mutate(
                Mutation::SetObjectTransform { handle, transform },
            ),
            Instruction::RemoveObject { handle } => Effect::Mutate(Mutation::RemoveObject { handle }),
            Instruction::AddDirectionalLight { handle, light } => Effect::Mutate(
                Mutation::FillDirectionalLight { handle, light },
            ),
            Instruction::ChangeDirectionalLight { handle, change, direction } => Effect::Mutate(
                Mutation::ChangeDirectionalLight { handle, change, aim: direction },
            ),
            Instruction::RemoveDirectionalLight { handle } => Effect::Mutate(
                Mutation::RemoveDirectionalLight { handle },
            ),
            Instruction::SetOptions { options } => Effect::Stage(options),
            Instruction::SetCameraData { data } => Effect::Mutate(Mutation::SetCameraData { data }),
            Instruction::SetBackgroundTexture { handle } => Effect::Mutate(
                Mutation::SetBackground { texture: Some(handle) },
            ),
            Instruction::ClearBackgroundTexture => Effect::Mutate(Mutation::SetBackground { texture: None }),
        }
    }
}

/// Lays out the upload of a texture into the pool of `kind`.
///
/// A texture without a mip level cannot be uploaded: to offer one is a mistake
/// of the caller, not a condition to recover from.
pub fn plan_upload(kind: TextureKind, width: u32, height: u32, mip_levels: u32) -> (upload: TextureUpload)
    requires
        mip_levels >= 1,
    ensures
        upload == upload_of(kind, width, height, mip_levels),
{
    match kind {
        TextureKind::Flat => TextureUpload {
            width,
            height,
            layers: 1,
            mip_level_count: mip_levels,
            sample_count: 1,
            cube_view: false,
        },
        TextureKind::Cube => TextureUpload {
            width,
            height,
            layers: 6,
            mip_level_count: mip_levels,
            sample_count: 1,
            cube_view: true,
        },
    }
}

/// Every instruction of the batch is well formed.
pub open spec fn batch_well_formed<P: SceneTypes>(batch: Seq<Instruction<P>>) -> bool {
    forall|k: int| 0 <= k < batch.len() ==> (#[trigger] batch[k]).well_formed()
}

/// The pool mutations of a batch: those of its instructions, in the order of the
/// batch. A change of options contributes none.
pub open spec fn mutations_of<P: SceneTypes>(batch: Seq<Instruction<P>>) -> Seq<Mutation<P>>
    decreases batch.len(),
{
    if batch.len() == 0 {
        Seq::empty()
    } else {
        let earlier = mutations_of(batch.drop_last());
        match batch.last().effect() {
            Effect::Mutate(mutation) => earlier.push(mutation),
            Effect::Stage(_) => earlier,
        }
    }
}

/// The options that a batch leaves staged: those of its last change of options,
/// if it has one.
pub open spec fn staged_options<P: SceneTypes>(batch: Seq<Instruction<P>>) -> Option<P::Options>
    decreases batch.len(),
{
    if batch.len() == 0 {
        None
    } else {
        match batch.last().effect() {
            Effect::Stage(options) => Some(options),
            Effect::Mutate(_) => staged_options(batch.drop_last()),
        }
    }
}

/// Whether every instruction of the batch is well formed.
pub fn check_batch<P: SceneTypes>(batch: &Vec<Instruction<P>>) -> (ok: bool)
    ensures
        ok == batch_well_formed(batch@),
{
    let mut k: usize = 0;
    while k < batch.len()
        invariant
            k <= batch.len(),
            forall|j: int| 0 <= j < k ==> (#[trigger] batch@[j]).well_formed(),
        decreases batch.len() - k,
    {
        if !batch[k].is_well_formed() {
            return false;
        }
        k = k + 1;
    }
    true
}

/// Applies a batch in the order it was queued.
///
/// The result lists one mutation for every instruction that is not a change of
/// options, in the order of the batch, and holds the options of the last such
/// change apart, to be put in force after the mutations.
pub fn apply_batch<P: SceneTypes>(batch: Vec<Instruction<P>>) -> (applied: Applied<P>)
    requires
        batch_well_formed(batch@),
    ensures
        applied.mutations@ == mutations_of(batch@),
        applied.new_options == staged_options(batch@),
{
    let mut mutations: Vec<Mutation<P>> = Vec::new();
    let mut new_options: Option<P::Options> = None;
    for instruction in iter: batch.into_iter()
        invariant
            batch_well_formed(batch@),
            mutations@ == mutations_of(batch@.take(iter.index() as int)),
            new_options == staged_options(batch@.take(iter.index() as int)),
    {
        proof {
            let done = batch@.take(iter.index() + 1);
            assert(done.drop_last() == batch@.take(iter.index() as int));
            assert(done.last() == instruction);
            assert(batch@[iter.index() as int].well_formed());
        }
        match instruction.apply() {
            Effect::Mutate(mutation) => {
                mutations.push(mutation);
            },
            Effect::Stage(options) => {
                new_options = Some(options);
            },
        }
    }
    proof {
        assert(batch@.take(batch@.len() as int) == batch@);
    }
    Applied { mutations, new_options }
}

/// The state that the pools are in after `mutations` have been made one after
/// the other, starting from `pools`, where `make(p, m)` is the state that the
/// single mutation `m` leaves pools in the state `p` in.
pub open spec fn pools_after<P: SceneTypes, S>(
    pools: S,
    make: spec_fn(S, Mutation<P>) -> S,
    mutations: Seq<Mutation<P>>,
) -> S
    decreases mutations.len(),
{
    if mutations.len() == 0 {
        pools
    } else {
        make(pools_after(pools, make, mutations.drop_last()), mutations.last())
    }
}

/// The state that the pools are in after the instructions of `batch` have been
/// applied strictly one at a time, each as a batch of its own.
pub open spec fn pools_after_each<P: SceneTypes, S>(
    pools: S,
    make: spec_fn(S, Mutation<P>) -> S,
    batch: Seq<Instruction<P>>,
) -> S
    decreases batch.len(),
{
    if batch.len() == 0 {
        pools
    } else {
        pools_after(pools_after_each(pools, make, batch.drop_last()), make, mutations_of(seq![batch.last()]))
    }
}

/// The mutations of two batches queued one after the other are those of the
/// first followed by those of the second.
pub proof fn lemma_mutations_of_concat<P: SceneTypes>(first: Seq<Instruction<P>>, second: Seq<Instruction<P>>)
    ensures
        mutations_of(first + second) == mutations_of(first) + mutations_of(second),
    decreases second.len(),
{
    if second.len() == 0 {
        assert(first + second == first);
        assert(mutations_of(first) + mutations_of(second) == mutations_of(first));
    } else {
        assert((first + second).drop_last() == first + second.drop_last());
        assert((first + second).last() == second.last());
        lemma_mutations_of_concat(first, second.drop_last());
        match second.last().effect() {
            Effect::Mutate(mutation) => {
                assert((mutations_of(first) + mutations_of(second.drop_last())).push(mutation) == mutations_of(
                    first,
                ) + mutations_of(second.drop_last()).push(mutation));
            },
            Effect::Stage(_) => {},
        }
    }
}

/// Making two runs of mutations one after the other is making their
/// concatenation.
pub proof fn lemma_pools_after_concat<P: SceneTypes, S>(
    pools: S,
    make: spec_fn(S, Mutation<P>) -> S,
    first: Seq<Mutation<P>>,
    second: Seq<Mutation<P>>,
)
    ensures
        pools_after(pools, make, first + second) == pools_after(pools_after(pools, make, first), make, second),
    decreases second.len(),
{
    if second.len() == 0 {
        assert(first + second == first);
    } else {
        assert((first + second).drop_last() == first + second.drop_last());
        assert((first + second).last() == second.last());
        lemma_pools_after_concat(pools, make, first, second.drop_last());
    }
}

/// Applying a batch as a whole leaves the pools in the state that applying its
/// instructions strictly one at a time, in the same order, leaves them in. This
/// holds whatever a mutation does to the pools.
pub proof fn lemma_batch_is_one_at_a_time<P: SceneTypes, S>(
    pools: S,
    make: spec_fn(S, Mutation<P>) -> S,
    batch: Seq<Instruction<P>>,
)
    ensures
        pools_after(pools, make, mutations_of(batch)) == pools_after_each(pools, make, batch),
    decreases batch.len(),
{
    if batch.len() > 0 {
        let earlier = batch.drop_last();
        let last = seq![batch.last()];
        assert(batch == earlier + last);
        lemma_mutations_of_concat(earlier, last);
        lemma_pools_after_concat(pools, make, mutations_of(earlier), mutations_of(last));
        lemma_batch_is_one_at_a_time(pools, make, earlier);
    }
}

/// Of two batches queued one after the other, the options staged are those of
/// the second, if it stages any, and else those of the first.
pub proof fn lemma_staged_options_of_concat<P: SceneTypes>(
    first: Seq<Instruction<P>>,
    second: Seq<Instruction<P>>,
)
    ensures
        staged_options(first + second) == if staged_options(second) is Some {
            staged_options(second)
        } else {
            staged_options(first)
        },
    decreases second.len(),
{
    if second.len() == 0 {
        assert(first + second == first);
    } else {
        assert((first + second).drop_last() == first + second.drop_last());
        assert((first + second).last() == second.last());
        lemma_staged_options_of_concat(first, second.drop_last());
    }
}

/// A batch stages options exactly if it holds a change of options, and the
/// options staged are those of the last such change.
pub proof fn lemma_staged_options_are_the_last<P: SceneTypes>(batch: Seq<Instruction<P>>)
    ensures
        staged_options(batch) is None <==> forall|k: int| 0 <= k < batch.len() ==> !(#[trigger] batch[k] is SetOptions),
        staged_options(batch) matches Some(options) ==> exists|k: int|
            {
                &&& 0 <= k < batch.len()
                &&& #[trigger] batch[k] == (Instruction::<P>::SetOptions { options })
                &&& forall|j: int| k < j < batch.len() ==> !(#[trigger] batch[j] is SetOptions)
            },
    decreases batch.len(),
{
    if batch.len() > 0 {
        let earlier = batch.drop_last();
        let last = batch.len() - 1;
        lemma_staged_options_are_the_last(earlier);
        assert forall|k: int| 0 <= k < earlier.len() implies #[trigger] earlier[k] == batch[k] by {}
        match batch.last() {
            Instruction::SetOptions { options } => {
                assert(batch[last] == (Instruction::<P>::SetOptions { options }));
            },
            _ => {
                assert(!(batch[last] is SetOptions));
                if staged_options(earlier) is None {
                    assert forall|k: int| 0 <= k < batch.len() implies !(#[trigger] batch[k] is SetOptions) by {
                        if k < last {
                            assert(earlier[k] == batch[k]);
                        }
                    }
                } else {
                    let options = staged_options(earlier)->Some_0;
                    let k = choose|k: int|
                        {
                            &&& 0 <= k < earlier.len()
                            &&& #[trigger] earlier[k] == (Instruction::<P>::SetOptions { options })
                            &&& forall|j: int| k < j < earlier.len() ==> !(#[trigger] earlier[j] is SetOptions)
                        };
                    assert(batch[k] == (Instruction::<P>::SetOptions { options }));
                    assert forall|j: int| k < j < batch.len() implies !(#[trigger] batch[j] is SetOptions) by {
                        if j < last {
                            assert(earlier[j] == batch[j]);
                        }
                    }
                }
            },
        }
    }
}

/// The mutations of a batch are what is left of it when every instruction is
/// replaced by its mutation and those that have none are dropped.
pub proof fn lemma_mutations_are_filtered<P: SceneTypes>(batch: Seq<Instruction<P>>)
    ensures
        mutations_of(batch) == batch.filter_map(
            |instruction: Instruction<P>|
                match instruction.effect() {
                    Effect::Mutate(mutation) => Some(mutation),
                    Effect::Stage(_) => None,
                },
        ),
    decreases batch.len(),
{
    let pick = |instruction: Instruction<P>|
        match instruction.effect() {
            Effect::Mutate(mutation) => Some(mutation),
            Effect::Stage(_) => None,
        };
    if batch.len() > 0 {
        lemma_mutations_are_filtered(batch.drop_last());
        match batch.last().effect() {
            Effect::Mutate(mutation) => {
                assert(pick(batch.last()) == Some(mutation));
                assert(mutations_of(batch.drop_last()).push(mutation) == mutations_of(batch.drop_last())
                    + seq![mutation]);
            },
            Effect::Stage(_) => {
                assert(pick(batch.last()) is None);
            },
        }
    }
    assert(mutations_of(batch) == batch.filter_map(pick));
}

} // verus!
