//! The order of a frame.
//!
//! A frame is a fixed sequence of steps. This module writes that sequence down,
//! in the parts in which it becomes known: what is done up to the point where
//! the lights and the number of objects are known, what is done from there up
//! to the acquisition of the output target, and what is done after it. The
//! caller performs the steps one by one.

use crate::binding::{frame_groups, frame_groups_of, BindGroup};
use crate::culling::{prepare, strategy, strategy_of, CullOutput, CullStrategy, Viewpoint};
use crate::mode::RendererMode;
use crate::schedule::{push_view_tasks, tasks_of_view, RecordTask, RunRate};
use vstd::prelude::*;

verus! {

/// A resource pool that is reconciled with the GPU once per frame.
#[derive(Debug, Clone, Copy, PartialEq, Eq, Structural)]
pub enum Pool {
    Textures2D,
    TexturesCube,
    Materials,
    Objects,
    DirectionalLights,
}

/// One step of a frame.
#[derive(Debug, Clone, Copy, PartialEq, Eq)]
pub enum FrameStep {
    /// Create the primary encoder.
    BeginEncoder,
    /// Have the pools make the mutation at this position of the applied batch.
    Apply { mutation: usize },
    /// Reconcile a pool with the GPU and learn which entries became ready. If
    /// `aggregate` is set the pool also refreshes its aggregate bind group.
    /// Reconciling the objects yields their number, and reconciling the lights
    /// the number of those that cast shadows.
    Ready { pool: Pool, aggregate: bool },
    /// Start recompiling the pipelines for the textures that became ready. The
    /// result is not waited for here.
    StartRecompile,
    /// Assemble a frame-wide bind group.
    Bind { group: BindGroup },
    /// Give up exclusive access to the pools.
    ReleasePools,
    /// Put the staged options in force.
    UpdateOptions,
    /// Wait for the recompilation that was started earlier.
    AwaitRecompile,
    /// Allocate the output of culling a view.
    PrepareCull { output: CullOutput },
    /// Assemble the bind group over a view's draw records.
    BindObjects { view: Viewpoint },
    /// Upload a view's camera transform and the ambient term.
    UploadUniform { view: Viewpoint },
    /// Cull a view.
    Cull { view: Viewpoint, strategy: CullStrategy },
    /// Gather the bundle of bind groups that the recordings of a view share.
    Bundle { view: Viewpoint },
    /// Hand a recording to the worker pool.
    Spawn { task: RecordTask },
    /// Acquire the output target.
    Acquire,
    /// Finish the primary encoder.
    FinishEncoder,
    /// Collect the recorded command buffers in the order their tasks were
    /// spawned in.
    Drain,
    /// Wait until the GPU has finished earlier work.
    WaitIdle,
    /// Submit the primary command buffer and the recorded ones after it.
    Submit,
    /// Start reclaiming buffers in the background. Failures are ignored.
    Reclaim,
    /// Present the output target.
    Present,
}

/// How urgent a task is that a step hands to the worker pool.
#[derive(Debug, Clone, Copy, PartialEq, Eq, Structural)]
pub enum Priority {
    /// The frame waits for the task.
    RenderRecord,
    /// Nothing waits for the task, and nothing depends on its success.
    BufferRecall,
}

impl FrameStep {
    /// Whether the frame is suspended until the step is done: while a view is
    /// culled on the CPU, while pipelines are recompiled, while the output
    /// target is acquired and while the recordings are collected. No worker
    /// is held up by any of these.
    pub open spec fn is_suspending(self) -> bool {
        match self {
            FrameStep::Cull { strategy, .. } => strategy == CullStrategy::Cpu,
            FrameStep::AwaitRecompile => true,
            FrameStep::Acquire => true,
            FrameStep::Drain => true,
            _ => false,
        }
    }

    /// The priority of the tasks that the step hands to the worker pool, if it
    /// hands it any: recordings are waited for, the reclaiming of buffers is
    /// not.
    pub open spec fn task_priority(self) -> Option<Priority> {
        match self {
            FrameStep::Spawn { .. } => Some(Priority::RenderRecord),
            FrameStep::Reclaim => Some(Priority::BufferRecall),
            _ => None,
        }
    }

    /// Whether the frame is suspended until the step is done.
    pub fn suspends(&self) -> (suspending: bool)
        ensures
            suspending == self.is_suspending(),
    {
        match self {
            FrameStep::Cull { strategy, .. } => match strategy {
                CullStrategy::Cpu => true,
                CullStrategy::Gpu => false,
            },
            FrameStep::AwaitRecompile => true,
            FrameStep::Acquire => true,
            FrameStep::Drain => true,
            _ => false,
        }
    }

    /// The priority of the tasks that the step hands to the worker pool.
    pub fn priority(&self) -> (priority: Option<Priority>)
        ensures
            priority == self.task_priority(),
    {
        match self {
            FrameStep::Spawn { .. } => Some(Priority::RenderRecord),
            FrameStep::Reclaim => Some(Priority::BufferRecall),
            _ => None,
        }
    }
}

/// One `Apply` step for each of the first `mutations` mutations, in order.
pub open spec fn apply_steps(mutations: nat) -> Seq<FrameStep> {
    Seq::new(mutations, |k: int| FrameStep::Apply { mutation: k as usize })
}

/// Reconciling the pools: both texture pools, then the start of recompilation
/// where resources are GPU-resident, then materials, objects and lights. Only
/// the texture pools of a GPU-resident renderer keep an aggregate bind group.
pub open spec fn readiness_steps(mode: RendererMode) -> Seq<FrameStep> {
    let gpu = mode.gpu_resident();
    seq![
        FrameStep::Ready { pool: Pool::Textures2D, aggregate: gpu },
        FrameStep::Ready { pool: Pool::TexturesCube, aggregate: gpu },
    ] + (if gpu {
        seq![FrameStep::StartRecompile]
    } else {
        Seq::empty()
    }) + seq![
        FrameStep::Ready { pool: Pool::Materials, aggregate: false },
        FrameStep::Ready { pool: Pool::Objects, aggregate: false },
        FrameStep::Ready { pool: Pool::DirectionalLights, aggregate: false },
    ]
}

/// One `Bind` step for each frame-wide bind group of the mode.
pub open spec fn binding_steps(mode: RendererMode) -> Seq<FrameStep> {
    Seq::new(frame_groups_of(mode).len(), |k: int| FrameStep::Bind { group: frame_groups_of(mode)[k] })
}

/// The first part of a frame, for a batch that came to `mutations` mutations and
/// that staged options or not.
pub open spec fn prepare_steps(mode: RendererMode, mutations: nat, staged: bool) -> Seq<FrameStep> {
    seq![FrameStep::BeginEncoder] + apply_steps(mutations) + readiness_steps(mode) + binding_steps(mode)
        + seq![FrameStep::ReleasePools] + (if staged {
        seq![FrameStep::UpdateOptions]
    } else {
        Seq::empty()
    }) + (if mode.gpu_resident() {
        seq![FrameStep::AwaitRecompile]
    } else {
        Seq::empty()
    })
}

/// One `Spawn` step for each of `tasks`, in order.
pub open spec fn spawn_steps(tasks: Seq<RecordTask>) -> Seq<FrameStep> {
    Seq::new(tasks.len(), |k: int| FrameStep::Spawn { task: tasks[k] })
}

/// What is done for one view: its output is allocated and bound, its uniform
/// uploaded, the view culled, its bundle gathered, and its recordings spawned.
pub open spec fn view_steps(
    mode: RendererMode,
    view: Viewpoint,
    object_count: usize,
    passes: Seq<RunRate>,
) -> Seq<FrameStep> {
    seq![
        FrameStep::PrepareCull { output: CullOutput { view, records: object_count } },
        FrameStep::BindObjects { view },
        FrameStep::UploadUniform { view },
        FrameStep::Cull { view, strategy: strategy_of(mode) },
        FrameStep::Bundle { view },
    ] + spawn_steps(tasks_of_view(view, passes))
}

/// What is done for the first `lights` shadow-casting lights, light by light.
pub open spec fn shadow_steps(
    mode: RendererMode,
    lights: nat,
    object_count: usize,
    passes: Seq<RunRate>,
) -> Seq<FrameStep>
    decreases lights,
{
    if lights == 0 {
        Seq::empty()
    } else {
        shadow_steps(mode, (lights - 1) as nat, object_count, passes) + view_steps(
            mode,
            Viewpoint::Shadow((lights - 1) as usize),
            object_count,
            passes,
        )
    }
}

/// How a frame ends.
pub open spec fn closing_steps() -> Seq<FrameStep> {
    seq![
        FrameStep::FinishEncoder,
        FrameStep::Drain,
        FrameStep::WaitIdle,
        FrameStep::Submit,
        FrameStep::Reclaim,
        FrameStep::Present,
    ]
}

/// The second part of a frame: the lights, the acquisition of the output
/// target, the camera, and the end of the frame.
pub open spec fn record_steps(
    mode: RendererMode,
    lights: nat,
    object_count: usize,
    passes: Seq<RunRate>,
) -> Seq<FrameStep> {
    shadow_steps(mode, lights, object_count, passes) + seq![FrameStep::Acquire] + view_steps(
        mode,
        Viewpoint::Camera,
        object_count,
        passes,
    ) + closing_steps()
}

/// The second part of a frame up to the point where the output target is
/// acquired: the lights, then the acquisition.
pub open spec fn lights_steps(
    mode: RendererMode,
    lights: nat,
    object_count: usize,
    passes: Seq<RunRate>,
) -> Seq<FrameStep> {
    shadow_steps(mode, lights, object_count, passes) + seq![FrameStep::Acquire]
}

/// How a frame ends whose output target could not be acquired: nothing is done
/// for the camera and nothing is presented, but what has been encoded and
/// recorded so far is still submitted, so that the mutations of the batch stay
/// in effect.
pub open spec fn abandon_steps() -> Seq<FrameStep> {
    seq![
        FrameStep::FinishEncoder,
        FrameStep::Drain,
        FrameStep::WaitIdle,
        FrameStep::Submit,
        FrameStep::Reclaim,
    ]
}

/// The rest of a frame after the output target was acquired, or was not.
pub open spec fn finish_steps(
    mode: RendererMode,
    acquired: bool,
    object_count: usize,
    passes: Seq<RunRate>,
) -> Seq<FrameStep> {
    if acquired {
        view_steps(mode, Viewpoint::Camera, object_count, passes) + closing_steps()
    } else {
        abandon_steps()
    }
}

/// A whole frame.
pub open spec fn frame_steps(
    mode: RendererMode,
    mutations: nat,
    staged: bool,
    lights: nat,
    object_count: usize,
    passes: Seq<RunRate>,
) -> Seq<FrameStep> {
    prepare_steps(mode, mutations, staged) + record_steps(mode, lights, object_count, passes)
}

/// The tasks that a sequence of steps spawns, in order.
pub open spec fn spawned(steps: Seq<FrameStep>) -> Seq<RecordTask>
    decreases steps.len(),
{
    if steps.len() == 0 {
        Seq::empty()
    } else {
        let earlier = spawned(steps.drop_last());
        match steps.last() {
            FrameStep::Spawn { task } => earlier.push(task),
            _ => earlier,
        }
    }
}

/// Writes down the first part of a frame.
pub fn prepare_script(mode: RendererMode, mutations: usize, staged: bool) -> (script: Vec<FrameStep>)
    ensures
        script@ == prepare_steps(mode, mutations as nat, staged),
{
    let gpu = mode.is_gpu_resident();
    let mut script: Vec<FrameStep> = Vec::new();
    script.push(FrameStep::BeginEncoder);
    let mut k: usize = 0;
    while k < mutations
        invariant
            k <= mutations,
            script@ == seq![FrameStep::BeginEncoder] + apply_steps(k as nat),
        decreases mutations - k,
    {
        script.push(FrameStep::Apply { mutation: k });
        k = k + 1;
    }
    script.push(FrameStep::Ready { pool: Pool::Textures2D, aggregate: gpu });
    script.push(FrameStep::Ready { pool: Pool::TexturesCube, aggregate: gpu });
    if gpu {
        script.push(FrameStep::StartRecompile);
    }
    script.push(FrameStep::Ready { pool: Pool::Materials, aggregate: false });
    script.push(FrameStep::Ready { pool: Pool::Objects, aggregate: false });
    script.push(FrameStep::Ready { pool: Pool::DirectionalLights, aggregate: false });
    assert(script@ == seq![FrameStep::BeginEncoder] + apply_steps(mutations as nat) + readiness_steps(mode));
    let ghost before = script@;
    let groups = frame_groups(mode);
    let mut g: usize = 0;
    while g < groups.len()
        invariant
            g <= groups.len(),
            groups@ == frame_groups_of(mode),
            script@ == before + binding_steps(mode).take(g as int),
        decreases groups.len() - g,
    {
        script.push(FrameStep::Bind { group: groups[g] });
        proof {
            assert(binding_steps(mode).take(g + 1) == binding_steps(mode).take(g as int).push(
                FrameStep::Bind { group: groups@[g as int] },
            ));
        }
        g = g + 1;
    }
    proof {
        assert(binding_steps(mode).take(groups@.len() as int) == binding_steps(mode));
    }
    script.push(FrameStep::ReleasePools);
    if staged {
        script.push(FrameStep::UpdateOptions);
    }
    if gpu {
        script.push(FrameStep::AwaitRecompile);
    }
    assert(script@ == prepare_steps(mode, mutations as nat, staged));
    script
}

/// Appends what is done for one view to `script`.
pub fn push_view_script(
    script: &mut Vec<FrameStep>,
    mode: RendererMode,
    view: Viewpoint,
    object_count: usize,
    passes: &Vec<RunRate>,
)
    ensures
        final(script)@ == old(script)@ + view_steps(mode, view, object_count, passes@),
{
    let ghost before = script@;
    script.push(FrameStep::PrepareCull { output: prepare(object_count, view) });
    script.push(FrameStep::BindObjects { view });
    script.push(FrameStep::UploadUniform { view });
    script.push(FrameStep::Cull { view, strategy: strategy(mode) });
    script.push(FrameStep::Bundle { view });
    let mut tasks: Vec<RecordTask> = Vec::new();
    push_view_tasks(&mut tasks, view, passes);
    assert(tasks@ == tasks_of_view(view, passes@));
    let ghost head = script@;
    let mut k: usize = 0;
    while k < tasks.len()
        invariant
            k <= tasks.len(),
            script@ == head + spawn_steps(tasks@).take(k as int),
        decreases tasks.len() - k,
    {
        script.push(FrameStep::Spawn { task: tasks[k] });
        proof {
            assert(spawn_steps(tasks@).take(k + 1) == spawn_steps(tasks@).take(k as int).push(
                FrameStep::Spawn { task: tasks@[k as int] },
            ));
        }
        k = k + 1;
    }
    proof {
        assert(spawn_steps(tasks@).take(tasks@.len() as int) == spawn_steps(tasks@));
        assert(script@ == before + view_steps(mode, view, object_count, passes@));
    }
}

/// Writes down the second part of a frame up to the acquisition of the output
/// target, for `lights` shadow-casting lights, a scene of `object_count`
/// objects and the render list `passes`.
pub fn lights_script(mode: RendererMode, lights: usize, object_count: usize, passes: &Vec<RunRate>) -> (script:
    Vec<FrameStep>)
    ensures
        script@ == lights_steps(mode, lights as nat, object_count, passes@),
{
    let mut script: Vec<FrameStep> = Vec::new();
    let mut light: usize = 0;
    while light < lights
        invariant
            light <= lights,
            script@ == shadow_steps(mode, light as nat, object_count, passes@),
        decreases lights - light,
    {
        push_view_script(&mut script, mode, Viewpoint::Shadow(light), object_count, passes);
        light = light + 1;
    }
    script.push(FrameStep::Acquire);
    script
}

/// Writes down the rest of a frame, once it is known whether the output target
/// was acquired.
pub fn finish_script(mode: RendererMode, acquired: bool, object_count: usize, passes: &Vec<RunRate>) -> (script:
    Vec<FrameStep>)
    ensures
        script@ == finish_steps(mode, acquired, object_count, passes@),
{
    let mut script: Vec<FrameStep> = Vec::new();
    if acquired {
        push_view_script(&mut script, mode, Viewpoint::Camera, object_count, passes);
    }
    script.push(FrameStep::FinishEncoder);
    script.push(FrameStep::Drain);
    script.push(FrameStep::WaitIdle);
    script.push(FrameStep::Submit);
    script.push(FrameStep::Reclaim);
    if acquired {
        script.push(FrameStep::Present);
    }
    assert(script@ == finish_steps(mode, acquired, object_count, passes@));
    script
}

/// The second part of a frame whose output target is acquired is what leads up
/// to the acquisition followed by what finishes the frame after it.
pub proof fn lemma_record_steps_split(
    mode: RendererMode,
    lights: nat,
    object_count: usize,
    passes: Seq<RunRate>,
)
    ensures
        record_steps(mode, lights, object_count, passes) == lights_steps(mode, lights, object_count, passes)
            + finish_steps(mode, true, object_count, passes),
{
    assert(record_steps(mode, lights, object_count, passes) =~= lights_steps(mode, lights, object_count, passes)
        + finish_steps(mode, true, object_count, passes));
}

} // verus!
