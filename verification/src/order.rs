//! What holds of the order of every frame.
//!
//! Each step of a frame belongs to a stage, and a frame goes through its stages
//! in order. The laws of this module follow from that: mutations are made
//! before anything reads the pools, a view is culled before its passes are
//! recorded, the output target is acquired between the lights and the camera,
//! and the frame is presented once, at its very end.

use crate::frame::{
    apply_steps, binding_steps, closing_steps, finish_steps, frame_steps, prepare_steps, readiness_steps,
    record_steps, shadow_steps, spawn_steps, spawned, view_steps, FrameStep,
};
use crate::culling::{CullOutput, CullStrategy, Viewpoint};
use crate::mode::RendererMode;
use crate::schedule::{fan_out_of, tasks_of_shadows, tasks_of_view, RecordTask, RunRate};
use vstd::prelude::*;

verus! {

/// The stage at which the work for a view begins in a frame with `lights`
/// shadow-casting lights. Each view has six stages of its own. The lights come
/// first, in their order; the stage after the last light is that of acquiring
/// the output target, and the camera follows it.
pub open spec fn view_stage(view: Viewpoint, lights: nat) -> int {
    match view {
        Viewpoint::Shadow(light) => 6 + 6 * (light as int),
        Viewpoint::Camera => 7 + 6 * (lights as int),
    }
}

/// The stage that a step belongs to in a frame with `lights` shadow-casting
/// lights.
pub open spec fn stage(step: FrameStep, lights: nat) -> int {
    match step {
        FrameStep::BeginEncoder => 0,
        FrameStep::Apply { .. } => 1,
        FrameStep::Ready { .. } => 2,
        FrameStep::StartRecompile => 2,
        FrameStep::Bind { .. } => 2,
        FrameStep::ReleasePools => 3,
        FrameStep::UpdateOptions => 4,
        FrameStep::AwaitRecompile => 5,
        FrameStep::PrepareCull { output } => view_stage(output.view, lights),
        FrameStep::BindObjects { view } => view_stage(view, lights) + 1,
        FrameStep::UploadUniform { view } => view_stage(view, lights) + 2,
        FrameStep::Cull { view, .. } => view_stage(view, lights) + 3,
        FrameStep::Bundle { view } => view_stage(view, lights) + 4,
        FrameStep::Spawn { task } => view_stage(task.view, lights) + 5,
        FrameStep::Acquire => 6 + 6 * (lights as int),
        FrameStep::FinishEncoder => 13 + 6 * (lights as int),
        FrameStep::Drain => 14 + 6 * (lights as int),
        FrameStep::WaitIdle => 15 + 6 * (lights as int),
        FrameStep::Submit => 16 + 6 * (lights as int),
        FrameStep::Reclaim => 17 + 6 * (lights as int),
        FrameStep::Present => 18 + 6 * (lights as int),
    }
}

/// The view that a step works for, if it works for one.
pub open spec fn view_of(step: FrameStep) -> Option<Viewpoint> {
    match step {
        FrameStep::PrepareCull { output } => Some(output.view),
        FrameStep::BindObjects { view } => Some(view),
        FrameStep::UploadUniform { view } => Some(view),
        FrameStep::Cull { view, .. } => Some(view),
        FrameStep::Bundle { view } => Some(view),
        FrameStep::Spawn { task } => Some(task.view),
        _ => None,
    }
}

/// Whether a step has a place in a frame with `lights` shadow-casting lights: a
/// step that works for a light works for one of the frame's lights.
pub open spec fn has_place(step: FrameStep, lights: nat) -> bool {
    view_of(step) matches Some(Viewpoint::Shadow(light)) ==> light < lights
}

/// Whether `steps` goes through its stages in order, with every step in its
/// place.
pub open spec fn in_stage_order(steps: Seq<FrameStep>, lights: nat) -> bool {
    &&& forall|k: int| 0 <= k < steps.len() ==> has_place(#[trigger] steps[k], lights)
    &&& forall|i: int, j: int|
        0 <= i <= j < steps.len() ==> stage(#[trigger] steps[i], lights) <= stage(#[trigger] steps[j], lights)
}

spec fn within(steps: Seq<FrameStep>, lights: nat, low: int, high: int) -> bool {
    &&& in_stage_order(steps, lights)
    &&& forall|k: int| 0 <= k < steps.len() ==> low <= stage(#[trigger] steps[k], lights) <= high
}

proof fn lemma_within_concat(
    first: Seq<FrameStep>,
    second: Seq<FrameStep>,
    lights: nat,
    low: int,
    split: int,
    high: int,
)
    requires
        within(first, lights, low, split),
        within(second, lights, split, high),
        low <= split <= high,
    ensures
        within(first + second, lights, low, high),
{
    let both = first + second;
    assert forall|k: int| 0 <= k < both.len() implies has_place(#[trigger] both[k], lights) && low <= stage(
        both[k],
        lights,
    ) <= high by {
        if k < first.len() {
            assert(both[k] == first[k]);
        } else {
            assert(both[k] == second[k - first.len()]);
        }
    }
    assert forall|i: int, j: int| 0 <= i <= j < both.len() implies stage(#[trigger] both[i], lights) <= stage(
        #[trigger] both[j],
        lights,
    ) by {
        if i < first.len() {
            assert(both[i] == first[i]);
        } else {
            assert(both[i] == second[i - first.len()]);
        }
        if j < first.len() {
            assert(both[j] == first[j]);
        } else {
            assert(both[j] == second[j - first.len()]);
        }
    }
}

proof fn lemma_prepare_within(mode: RendererMode, mutations: nat, staged: bool, lights: nat)
    ensures
        within(prepare_steps(mode, mutations, staged), lights, 0, 5),
{
    let begin = seq![FrameStep::BeginEncoder];
    let options = if staged {
        seq![FrameStep::UpdateOptions]
    } else {
        Seq::empty()
    };
    let recompiled = if mode.gpu_resident() {
        seq![FrameStep::AwaitRecompile]
    } else {
        Seq::empty()
    };
    assert(within(begin, lights, 0, 1));
    assert(within(apply_steps(mutations), lights, 1, 2));
    assert(within(readiness_steps(mode), lights, 2, 2));
    assert(within(binding_steps(mode), lights, 2, 3));
    assert(within(seq![FrameStep::ReleasePools], lights, 3, 4));
    assert(within(options, lights, 4, 5));
    assert(within(recompiled, lights, 5, 5));
    lemma_within_concat(begin, apply_steps(mutations), lights, 0, 1, 2);
    lemma_within_concat(begin + apply_steps(mutations), readiness_steps(mode), lights, 0, 2, 2);
    lemma_within_concat(
        begin + apply_steps(mutations) + readiness_steps(mode),
        binding_steps(mode),
        lights,
        0,
        2,
        3,
    );
    lemma_within_concat(
        begin + apply_steps(mutations) + readiness_steps(mode) + binding_steps(mode),
        seq![FrameStep::ReleasePools],
        lights,
        0,
        3,
        4,
    );
    lemma_within_concat(
        begin + apply_steps(mutations) + readiness_steps(mode) + binding_steps(mode) + seq![
            FrameStep::ReleasePools,
        ],
        options,
        lights,
        0,
        4,
        5,
    );
    lemma_within_concat(
        begin + apply_steps(mutations) + readiness_steps(mode) + binding_steps(mode) + seq![
            FrameStep::ReleasePools,
        ] + options,
        recompiled,
        lights,
        0,
        5,
        5,
    );
}

proof fn lemma_view_within(
    mode: RendererMode,
    view: Viewpoint,
    object_count: usize,
    passes: Seq<RunRate>,
    lights: nat,
)
    requires
        has_place(FrameStep::BindObjects { view }, lights),
    ensures
        within(
            view_steps(mode, view, object_count, passes),
            lights,
            view_stage(view, lights),
            view_stage(view, lights) + 5,
        ),
{
    let steps = view_steps(mode, view, object_count, passes);
    let tasks = tasks_of_view(view, passes);
    lemma_tasks_keep_view(view, passes);
    assert forall|k: int| 0 <= k < steps.len() implies has_place(#[trigger] steps[k], lights) && view_stage(
        view,
        lights,
    ) <= stage(steps[k], lights) <= view_stage(view, lights) + 5 && (k >= 5 ==> stage(steps[k], lights)
        == view_stage(view, lights) + 5) && (k < 5 ==> stage(steps[k], lights) == view_stage(view, lights) + k) by {
        if k >= 5 {
            assert(steps[k] == spawn_steps(tasks)[k - 5]);
            assert(tasks[k - 5].view == view);
        }
    }
}

proof fn lemma_tasks_keep_view(view: Viewpoint, passes: Seq<RunRate>)
    ensures
        forall|k: int|
            0 <= k < tasks_of_view(view, passes).len() ==> (#[trigger] tasks_of_view(view, passes)[k]).view == view,
    decreases passes.len(),
{
    if passes.len() > 0 {
        lemma_tasks_keep_view(view, passes.drop_last());
    }
}

proof fn lemma_shadows_within(
    mode: RendererMode,
    upto: nat,
    object_count: usize,
    passes: Seq<RunRate>,
    lights: nat,
)
    requires
        upto <= lights <= usize::MAX,
    ensures
        within(shadow_steps(mode, upto, object_count, passes), lights, 6, 6 + 6 * (upto as int)),
    decreases upto,
{
    if upto > 0 {
        let before = (upto - 1) as nat;
        let view = Viewpoint::Shadow(before as usize);
        lemma_shadows_within(mode, before, object_count, passes, lights);
        lemma_view_within(mode, view, object_count, passes, lights);
        let earlier = shadow_steps(mode, before, object_count, passes);
        let latest = view_steps(mode, view, object_count, passes);
        assert(within(latest, lights, 6 + 6 * (before as int), 6 + 6 * (upto as int)));
        lemma_within_concat(earlier, latest, lights, 6, 6 + 6 * (before as int), 6 + 6 * (upto as int));
    }
}

proof fn lemma_record_within(
    mode: RendererMode,
    lights: nat,
    object_count: usize,
    passes: Seq<RunRate>,
)
    requires
        lights <= usize::MAX,
    ensures
        within(record_steps(mode, lights, object_count, passes), lights, 6, 18 + 6 * (lights as int)),
{
    let shadows = shadow_steps(mode, lights, object_count, passes);
    let acquire = seq![FrameStep::Acquire];
    let camera = view_steps(mode, Viewpoint::Camera, object_count, passes);
    lemma_shadows_within(mode, lights, object_count, passes, lights);
    lemma_view_within(mode, Viewpoint::Camera, object_count, passes, lights);
    assert(within(acquire, lights, 6 + 6 * (lights as int), 7 + 6 * (lights as int)));
    assert(within(camera, lights, 7 + 6 * (lights as int), 13 + 6 * (lights as int)));
    assert(within(closing_steps(), lights, 13 + 6 * (lights as int), 18 + 6 * (lights as int)));
    lemma_within_concat(shadows, acquire, lights, 6, 6 + 6 * (lights as int), 7 + 6 * (lights as int));
    lemma_within_concat(shadows + acquire, camera, lights, 6, 7 + 6 * (lights as int), 13 + 6 * (lights as int));
    lemma_within_concat(shadows + acquire + camera, closing_steps(), lights, 6, 13 + 6 * (lights as int), 18 + 6 * (lights as int));
}

/// A frame goes through its stages in order, and each of its steps has its
/// place in it.
pub proof fn lemma_frame_in_stage_order(
    mode: RendererMode,
    mutations: nat,
    staged: bool,
    lights: nat,
    object_count: usize,
    passes: Seq<RunRate>,
)
    requires
        lights <= usize::MAX,
    ensures
        in_stage_order(frame_steps(mode, mutations, staged, lights, object_count, passes), lights),
{
    lemma_prepare_within(mode, mutations, staged, lights);
    lemma_record_within(mode, lights, object_count, passes);
    assert(within(prepare_steps(mode, mutations, staged), lights, 0, 6));
    lemma_within_concat(
        prepare_steps(mode, mutations, staged),
        record_steps(mode, lights, object_count, passes),
        lights,
        0,
        6,
        18 + 6 * (lights as int),
    );
}

/// Of two steps of a sequence in stage order, the one of the lower stage comes
/// first.
pub proof fn lemma_lower_stage_comes_first(steps: Seq<FrameStep>, lights: nat, i: int, j: int)
    requires
        in_stage_order(steps, lights),
        0 <= i < steps.len(),
        0 <= j < steps.len(),
        stage(steps[i], lights) < stage(steps[j], lights),
    ensures
        i < j,
{
}

/// Every mutation of the batch is made before any pool is reconciled, any bind
/// group assembled, the options changed, or any view culled or recorded: what
/// follows in a frame reads the pools only as the whole batch left them.
pub proof fn lemma_mutations_come_first(
    mode: RendererMode,
    mutations: nat,
    staged: bool,
    lights: nat,
    object_count: usize,
    passes: Seq<RunRate>,
    i: int,
    j: int,
)
    requires
        lights <= usize::MAX,
        ({
            let steps = frame_steps(mode, mutations, staged, lights, object_count, passes);
            &&& 0 <= i < steps.len()
            &&& 0 <= j < steps.len()
            &&& steps[i] is Apply
            &&& !(steps[j] is Apply)
            &&& !(steps[j] is BeginEncoder)
        }),
    ensures
        i < j,
{
    let steps = frame_steps(mode, mutations, staged, lights, object_count, passes);
    lemma_frame_in_stage_order(mode, mutations, staged, lights, object_count, passes);
    lemma_lower_stage_comes_first(steps, lights, i, j);
}

/// Staged options are put in force before the uniform of any view is uploaded:
/// the camera data that a frame's uniforms are made from is read under the
/// options that the frame's batch asked for.
pub proof fn lemma_options_before_uniforms(
    mode: RendererMode,
    mutations: nat,
    staged: bool,
    lights: nat,
    object_count: usize,
    passes: Seq<RunRate>,
    i: int,
    j: int,
)
    requires
        lights <= usize::MAX,
        ({
            let steps = frame_steps(mode, mutations, staged, lights, object_count, passes);
            &&& 0 <= i < steps.len()
            &&& 0 <= j < steps.len()
            &&& steps[i] is UpdateOptions
            &&& steps[j] is UploadUniform
        }),
    ensures
        i < j,
{
    let steps = frame_steps(mode, mutations, staged, lights, object_count, passes);
    lemma_frame_in_stage_order(mode, mutations, staged, lights, object_count, passes);
    lemma_lower_stage_comes_first(steps, lights, i, j);
}

/// A batch that stages options has them put in force exactly once in its frame,
/// and a batch that stages none has no options put in force.
pub proof fn lemma_options_updated_iff_staged(
    mode: RendererMode,
    mutations: nat,
    staged: bool,
    lights: nat,
    object_count: usize,
    passes: Seq<RunRate>,
)
    ensures
        ({
            let steps = frame_steps(mode, mutations, staged, lights, object_count, passes);
            &&& staged <==> steps.contains(FrameStep::UpdateOptions)
            &&& forall|i: int, j: int|
                0 <= i < steps.len() && 0 <= j < steps.len() && #[trigger] steps[i] == FrameStep::UpdateOptions
                    && #[trigger] steps[j] == FrameStep::UpdateOptions ==> i == j
        }),
{
    let steps = frame_steps(mode, mutations, staged, lights, object_count, passes);
    let prepared = prepare_steps(mode, mutations, staged);
    let recorded = record_steps(mode, lights, object_count, passes);
    let at = (1 + mutations + readiness_steps(mode).len() + binding_steps(mode).len() + 1) as int;
    assert forall|k: int| 0 <= k < steps.len() && #[trigger] steps[k] == FrameStep::UpdateOptions implies staged
        && k == at by {
        if k < prepared.len() {
            assert(prepared[k] == steps[k]);
        } else {
            lemma_recording_updates_no_options(mode, lights, object_count, passes, k - prepared.len());
            assert(steps[k] == recorded[k - prepared.len()]);
        }
    }
    if staged {
        assert(prepared[at] == FrameStep::UpdateOptions);
        assert(steps[at] == FrameStep::UpdateOptions);
    } else {
        if steps.contains(FrameStep::UpdateOptions) {
            let k = choose|k: int| 0 <= k < steps.len() && steps[k] == FrameStep::UpdateOptions;
        }
    }
}

pub(crate) proof fn lemma_view_steps_have_a_view(
    mode: RendererMode,
    view: Viewpoint,
    object_count: usize,
    passes: Seq<RunRate>,
    k: int,
)
    requires
        0 <= k < view_steps(mode, view, object_count, passes).len(),
    ensures
        view_of(view_steps(mode, view, object_count, passes)[k]) is Some,
{
}

pub(crate) proof fn lemma_shadow_steps_have_a_view(
    mode: RendererMode,
    lights: nat,
    object_count: usize,
    passes: Seq<RunRate>,
    k: int,
)
    requires
        0 <= k < shadow_steps(mode, lights, object_count, passes).len(),
    ensures
        view_of(shadow_steps(mode, lights, object_count, passes)[k]) is Some,
    decreases lights,
{
    if lights > 0 {
        let before = (lights - 1) as nat;
        let earlier = shadow_steps(mode, before, object_count, passes);
        if k < earlier.len() {
            lemma_shadow_steps_have_a_view(mode, before, object_count, passes, k);
        } else {
            lemma_view_steps_have_a_view(
                mode,
                Viewpoint::Shadow(before as usize),
                object_count,
                passes,
                k - earlier.len(),
            );
        }
    }
}

proof fn lemma_recording_updates_no_options(
    mode: RendererMode,
    lights: nat,
    object_count: usize,
    passes: Seq<RunRate>,
    k: int,
)
    requires
        0 <= k < record_steps(mode, lights, object_count, passes).len(),
    ensures
        record_steps(mode, lights, object_count, passes)[k] != FrameStep::UpdateOptions,
{
    let shadows = shadow_steps(mode, lights, object_count, passes);
    let camera = view_steps(mode, Viewpoint::Camera, object_count, passes);
    if k < shadows.len() {
        lemma_shadow_steps_have_a_view(mode, lights, object_count, passes, k);
    } else if k > shadows.len() && k - shadows.len() - 1 < camera.len() {
        lemma_view_steps_have_a_view(mode, Viewpoint::Camera, object_count, passes, k - shadows.len() - 1);
    }
}

/// Where pipelines are recompiled, the recompilation is started while the pools
/// are being reconciled and waited for only after the options are in force,
/// before anything is done for a view. A renderer whose resources are not
/// GPU-resident recompiles nothing.
pub proof fn lemma_recompiled_before_views(
    mode: RendererMode,
    mutations: nat,
    staged: bool,
    lights: nat,
    object_count: usize,
    passes: Seq<RunRate>,
    i: int,
    j: int,
)
    requires
        lights <= usize::MAX,
        ({
            let steps = frame_steps(mode, mutations, staged, lights, object_count, passes);
            &&& 0 <= i < steps.len()
            &&& 0 <= j < steps.len()
            &&& steps[i] is AwaitRecompile
        }),
    ensures
        mode.gpu_resident(),
        ({
            let other = frame_steps(mode, mutations, staged, lights, object_count, passes)[j];
            &&& other is StartRecompile || other is Ready || other is UpdateOptions ==> j < i
            &&& view_of(other) is Some ==> i < j
        }),
{
    let steps = frame_steps(mode, mutations, staged, lights, object_count, passes);
    let prepared = prepare_steps(mode, mutations, staged);
    lemma_frame_in_stage_order(mode, mutations, staged, lights, object_count, passes);
    if view_of(steps[j]) is Some {
        lemma_lower_stage_comes_first(steps, lights, i, j);
    } else if steps[j] is StartRecompile || steps[j] is Ready || steps[j] is UpdateOptions {
        lemma_lower_stage_comes_first(steps, lights, j, i);
    }
    if i < prepared.len() {
        assert(steps[i] == prepared[i]);
    } else {
        lemma_recording_awaits_nothing(mode, lights, object_count, passes, i - prepared.len());
        assert(steps[i] == record_steps(mode, lights, object_count, passes)[i - prepared.len()]);
    }
}

proof fn lemma_recording_awaits_nothing(
    mode: RendererMode,
    lights: nat,
    object_count: usize,
    passes: Seq<RunRate>,
    k: int,
)
    requires
        0 <= k < record_steps(mode, lights, object_count, passes).len(),
    ensures
        !(record_steps(mode, lights, object_count, passes)[k] is AwaitRecompile),
{
    let shadows = shadow_steps(mode, lights, object_count, passes);
    let camera = view_steps(mode, Viewpoint::Camera, object_count, passes);
    if k < shadows.len() {
        lemma_shadow_steps_have_a_view(mode, lights, object_count, passes, k);
    } else if k > shadows.len() && k - shadows.len() - 1 < camera.len() {
        lemma_view_steps_have_a_view(mode, Viewpoint::Camera, object_count, passes, k - shadows.len() - 1);
    }
}

/// The output of culling a view is allocated before the view is culled, and the
/// view is culled before any of its passes is handed out for recording: no
/// recording reads draw records that culling has not been asked to produce.
pub proof fn lemma_culled_before_recorded(
    mode: RendererMode,
    mutations: nat,
    staged: bool,
    lights: nat,
    object_count: usize,
    passes: Seq<RunRate>,
    i: int,
    j: int,
)
    requires
        lights <= usize::MAX,
        ({
            let steps = frame_steps(mode, mutations, staged, lights, object_count, passes);
            &&& 0 <= i < steps.len()
            &&& 0 <= j < steps.len()
            &&& view_of(steps[i]) == view_of(steps[j])
            &&& (steps[i] is PrepareCull && steps[j] is Cull) || (steps[i] is Cull && steps[j] is Spawn)
        }),
    ensures
        i < j,
{
    let steps = frame_steps(mode, mutations, staged, lights, object_count, passes);
    lemma_frame_in_stage_order(mode, mutations, staged, lights, object_count, passes);
    lemma_lower_stage_comes_first(steps, lights, i, j);
}

/// Every view is culled before the primary encoder is finished, so that the
/// dispatches of GPU culling are part of the primary command buffer.
pub proof fn lemma_culled_before_encoder_finished(
    mode: RendererMode,
    mutations: nat,
    staged: bool,
    lights: nat,
    object_count: usize,
    passes: Seq<RunRate>,
    i: int,
    j: int,
)
    requires
        lights <= usize::MAX,
        ({
            let steps = frame_steps(mode, mutations, staged, lights, object_count, passes);
            &&& 0 <= i < steps.len()
            &&& 0 <= j < steps.len()
            &&& steps[i] is Cull
            &&& steps[j] is FinishEncoder
        }),
    ensures
        i < j,
{
    let steps = frame_steps(mode, mutations, staged, lights, object_count, passes);
    lemma_frame_in_stage_order(mode, mutations, staged, lights, object_count, passes);
    assert(has_place(steps[i], lights));
    lemma_lower_stage_comes_first(steps, lights, i, j);
}

/// The output target is acquired after everything that is done for the lights
/// and before anything that is done for the camera.
pub proof fn lemma_acquired_between_lights_and_camera(
    mode: RendererMode,
    mutations: nat,
    staged: bool,
    lights: nat,
    object_count: usize,
    passes: Seq<RunRate>,
    i: int,
    j: int,
)
    requires
        lights <= usize::MAX,
        ({
            let steps = frame_steps(mode, mutations, staged, lights, object_count, passes);
            &&& 0 <= i < steps.len()
            &&& 0 <= j < steps.len()
            &&& steps[i] is Acquire
            &&& view_of(steps[j]) is Some
        }),
    ensures
        ({
            let other = frame_steps(mode, mutations, staged, lights, object_count, passes)[j];
            &&& view_of(other) matches Some(Viewpoint::Shadow(_)) ==> j < i
            &&& view_of(other) == Some(Viewpoint::Camera) ==> i < j
        }),
{
    let steps = frame_steps(mode, mutations, staged, lights, object_count, passes);
    lemma_frame_in_stage_order(mode, mutations, staged, lights, object_count, passes);
    assert(has_place(steps[j], lights));
    if view_of(steps[j]) == Some(Viewpoint::Camera) {
        lemma_lower_stage_comes_first(steps, lights, i, j);
    } else {
        lemma_lower_stage_comes_first(steps, lights, j, i);
    }
}

/// A frame ends by finishing the primary encoder, collecting the recordings,
/// waiting for the GPU, submitting, starting to reclaim buffers and presenting,
/// in this order. It submits and presents exactly once each, and every
/// recording is spawned before the command buffers are submitted.
pub proof fn lemma_presented_once_at_the_end(
    mode: RendererMode,
    mutations: nat,
    staged: bool,
    lights: nat,
    object_count: usize,
    passes: Seq<RunRate>,
)
    requires
        lights <= usize::MAX,
    ensures
        ({
            let steps = frame_steps(mode, mutations, staged, lights, object_count, passes);
            &&& steps.len() >= 6
            &&& steps.subrange(steps.len() - 6, steps.len() as int) == closing_steps()
            &&& steps[steps.len() - 1] == FrameStep::Present
            &&& steps[steps.len() - 3] == FrameStep::Submit
            &&& forall|k: int|
                0 <= k < steps.len() && #[trigger] steps[k] == FrameStep::Present ==> k == steps.len() - 1
            &&& forall|k: int|
                0 <= k < steps.len() && #[trigger] steps[k] == FrameStep::Submit ==> k == steps.len() - 3
            &&& forall|k: int| 0 <= k < steps.len() && #[trigger] steps[k] is Spawn ==> k < steps.len() - 3
        }),
{
    let steps = frame_steps(mode, mutations, staged, lights, object_count, passes);
    let prepared = prepare_steps(mode, mutations, staged);
    let shadows = shadow_steps(mode, lights, object_count, passes);
    let acquire = seq![FrameStep::Acquire];
    let camera = view_steps(mode, Viewpoint::Camera, object_count, passes);
    let body = prepared + (shadows + acquire + camera);
    assert(steps == body + closing_steps());
    lemma_frame_in_stage_order(mode, mutations, staged, lights, object_count, passes);
    lemma_prepare_within(mode, mutations, staged, lights);
    lemma_shadows_within(mode, lights, object_count, passes, lights);
    lemma_view_within(mode, Viewpoint::Camera, object_count, passes, lights);
    assert(within(acquire, lights, 6 + 6 * (lights as int), 7 + 6 * (lights as int)));
    assert(within(camera, lights, 7 + 6 * (lights as int), 12 + 6 * (lights as int)));
    lemma_within_concat(shadows, acquire, lights, 6, 6 + 6 * (lights as int), 7 + 6 * (lights as int));
    lemma_within_concat(
        shadows + acquire,
        camera,
        lights,
        6,
        7 + 6 * (lights as int),
        12 + 6 * (lights as int),
    );
    assert(within(prepared, lights, 0, 6));
    lemma_within_concat(prepared, shadows + acquire + camera, lights, 0, 6, 12 + 6 * (lights as int));
    assert(steps[steps.len() - 3] == closing_steps()[3]);
    assert(steps.subrange(steps.len() - 6, steps.len() as int) =~= closing_steps());
    assert forall|k: int| 0 <= k < steps.len() implies (k < body.len() ==> stage(#[trigger] steps[k], lights)
        <= 12 + 6 * (lights as int)) && (k >= body.len() ==> steps[k] == closing_steps()[k - body.len()]) by {
        if k < body.len() {
            assert(steps[k] == body[k]);
        }
    }
}

proof fn lemma_spawned_concat(first: Seq<FrameStep>, second: Seq<FrameStep>)
    ensures
        spawned(first + second) == spawned(first) + spawned(second),
    decreases second.len(),
{
    if second.len() == 0 {
        assert(first + second == first);
        assert(spawned(first) + spawned(second) == spawned(first));
    } else {
        assert((first + second).drop_last() == first + second.drop_last());
        assert((first + second).last() == second.last());
        lemma_spawned_concat(first, second.drop_last());
        match second.last() {
            FrameStep::Spawn { task } => {
                assert((spawned(first) + spawned(second.drop_last())).push(task) == spawned(first) + spawned(
                    second.drop_last(),
                ).push(task));
            },
            _ => {},
        }
    }
}

proof fn lemma_spawned_none(steps: Seq<FrameStep>)
    requires
        forall|k: int| 0 <= k < steps.len() ==> !(#[trigger] steps[k] is Spawn),
    ensures
        spawned(steps) == Seq::<RecordTask>::empty(),
    decreases steps.len(),
{
    if steps.len() > 0 {
        lemma_spawned_none(steps.drop_last());
    }
}

proof fn lemma_spawned_all(tasks: Seq<RecordTask>)
    ensures
        spawned(spawn_steps(tasks)) == tasks,
    decreases tasks.len(),
{
    if tasks.len() > 0 {
        assert(spawn_steps(tasks).drop_last() == spawn_steps(tasks.drop_last()));
        lemma_spawned_all(tasks.drop_last());
        assert(spawn_steps(tasks).last() == FrameStep::Spawn { task: tasks.last() });
        assert(tasks.drop_last().push(tasks.last()) == tasks);
    } else {
        assert(tasks == Seq::<RecordTask>::empty());
    }
}

proof fn lemma_spawned_of_view(mode: RendererMode, view: Viewpoint, object_count: usize, passes: Seq<RunRate>)
    ensures
        spawned(view_steps(mode, view, object_count, passes)) == tasks_of_view(view, passes),
{
    let head = seq![
        FrameStep::PrepareCull { output: CullOutput { view, records: object_count } },
        FrameStep::BindObjects { view },
        FrameStep::UploadUniform { view },
        FrameStep::Cull { view, strategy: crate::culling::strategy_of(mode) },
        FrameStep::Bundle { view },
    ];
    let tasks = tasks_of_view(view, passes);
    lemma_spawned_none(head);
    lemma_spawned_all(tasks);
    lemma_spawned_concat(head, spawn_steps(tasks));
    assert(Seq::<RecordTask>::empty() + tasks == tasks);
}

proof fn lemma_spawned_of_shadows(mode: RendererMode, lights: nat, object_count: usize, passes: Seq<RunRate>)
    ensures
        spawned(shadow_steps(mode, lights, object_count, passes)) == tasks_of_shadows(lights, passes),
    decreases lights,
{
    if lights > 0 {
        let before = (lights - 1) as nat;
        let view = Viewpoint::Shadow(before as usize);
        lemma_spawned_of_shadows(mode, before, object_count, passes);
        lemma_spawned_of_view(mode, view, object_count, passes);
        lemma_spawned_concat(
            shadow_steps(mode, before, object_count, passes),
            view_steps(mode, view, object_count, passes),
        );
    }
}

/// The recordings that a frame spawns, in the order it spawns them, are its
/// schedule.
pub proof fn lemma_frame_spawns_the_schedule(
    mode: RendererMode,
    mutations: nat,
    staged: bool,
    lights: nat,
    object_count: usize,
    passes: Seq<RunRate>,
)
    ensures
        spawned(record_steps(mode, lights, object_count, passes)) == fan_out_of(lights, passes),
        spawned(frame_steps(mode, mutations, staged, lights, object_count, passes)) == fan_out_of(lights, passes),
{
    let prepared = prepare_steps(mode, mutations, staged);
    let recorded = record_steps(mode, lights, object_count, passes);
    let shadows = shadow_steps(mode, lights, object_count, passes);
    let acquire = seq![FrameStep::Acquire];
    let camera = view_steps(mode, Viewpoint::Camera, object_count, passes);
    lemma_spawned_of_shadows(mode, lights, object_count, passes);
    lemma_spawned_of_view(mode, Viewpoint::Camera, object_count, passes);
    lemma_spawned_none(acquire);
    lemma_spawned_none(closing_steps());
    lemma_spawned_concat(shadows, acquire);
    lemma_spawned_concat(shadows + acquire, camera);
    lemma_spawned_concat(shadows + acquire + camera, closing_steps());
    let none = Seq::<RecordTask>::empty();
    assert(tasks_of_shadows(lights, passes) + none + tasks_of_view(Viewpoint::Camera, passes) + none
        == fan_out_of(lights, passes));
    lemma_prepare_within(mode, mutations, staged, 0);
    assert forall|k: int| 0 <= k < prepared.len() implies !(#[trigger] prepared[k] is Spawn) by {
        assert(stage(prepared[k], 0) <= 5);
    }
    lemma_spawned_none(prepared);
    lemma_spawned_concat(prepared, recorded);
    assert(none + fan_out_of(lights, passes) == fan_out_of(lights, passes));
}

/// Both strategies fill the same output. Whatever the mode, the work for a view
/// begins by allocating one draw record per object for that view, and the steps
/// of the two modes differ in nothing but the strategy of the culling step.
pub proof fn lemma_strategies_share_output(view: Viewpoint, object_count: usize, passes: Seq<RunRate>)
    ensures
        view_steps(RendererMode::CPUPowered, view, object_count, passes).len() == view_steps(
            RendererMode::GPUPowered,
            view,
            object_count,
            passes,
        ).len(),
        view_steps(RendererMode::CPUPowered, view, object_count, passes)[0] == (FrameStep::PrepareCull {
            output: CullOutput { view, records: object_count },
        }),
        view_steps(RendererMode::CPUPowered, view, object_count, passes)[3] == (FrameStep::Cull {
            view,
            strategy: CullStrategy::Cpu,
        }),
        view_steps(RendererMode::GPUPowered, view, object_count, passes)[3] == (FrameStep::Cull {
            view,
            strategy: CullStrategy::Gpu,
        }),
        forall|k: int|
            0 <= k < view_steps(RendererMode::CPUPowered, view, object_count, passes).len() && k != 3
                ==> #[trigger] view_steps(RendererMode::CPUPowered, view, object_count, passes)[k]
                == view_steps(RendererMode::GPUPowered, view, object_count, passes)[k],
{
}

/// Exclusive access to the pools is given up after every mutation is made and
/// every pool reconciled, and before any view is culled or recorded: the
/// recordings run side by side and only read the pools.
pub proof fn lemma_pools_released_before_views(
    mode: RendererMode,
    mutations: nat,
    staged: bool,
    lights: nat,
    object_count: usize,
    passes: Seq<RunRate>,
    i: int,
    j: int,
)
    requires
        lights <= usize::MAX,
        ({
            let steps = frame_steps(mode, mutations, staged, lights, object_count, passes);
            &&& 0 <= i < steps.len()
            &&& 0 <= j < steps.len()
            &&& steps[i] is ReleasePools
        }),
    ensures
        ({
            let other = frame_steps(mode, mutations, staged, lights, object_count, passes)[j];
            &&& other is Apply || other is Ready || other is Bind ==> j < i
            &&& view_of(other) is Some ==> i < j
        }),
{
    let steps = frame_steps(mode, mutations, staged, lights, object_count, passes);
    lemma_frame_in_stage_order(mode, mutations, staged, lights, object_count, passes);
    if view_of(steps[j]) is Some {
        lemma_lower_stage_comes_first(steps, lights, i, j);
    } else if steps[j] is Apply || steps[j] is Ready || steps[j] is Bind {
        lemma_lower_stage_comes_first(steps, lights, j, i);
    }
}

/// A frame whose output target could not be acquired does nothing for the
/// camera, spawns no further recording and presents nothing, but submits what
/// was encoded and recorded before.
pub proof fn lemma_abandoned_frame_submits_without_presenting(
    mode: RendererMode,
    object_count: usize,
    passes: Seq<RunRate>,
)
    ensures
        ({
            let rest = finish_steps(mode, false, object_count, passes);
            &&& rest.contains(FrameStep::Submit)
            &&& !rest.contains(FrameStep::Present)
            &&& forall|k: int| 0 <= k < rest.len() ==> view_of(#[trigger] rest[k]) is None
        }),
{
    let rest = finish_steps(mode, false, object_count, passes);
    assert(rest[3] == FrameStep::Submit);
    if rest.contains(FrameStep::Present) {
        let k = choose|k: int| 0 <= k < rest.len() && rest[k] == FrameStep::Present;
    }
}

} // verus!
