//! Fan-out of pass recording, and the order in which the results are submitted.
//!
//! Every pass of the render list is recorded once for each view that it runs
//! for: a pass that runs once per frame for the camera, a pass that runs per
//! shadow for every shadow-casting light. The lights come first, in their
//! order, then the camera; within a view the passes keep the order of the list.

use crate::culling::Viewpoint;
use vstd::prelude::*;

verus! {

/// How often a pass runs in a frame.
#[derive(Debug, Clone, Copy, PartialEq, Eq, Structural)]
pub enum RunRate {
    /// Once, for the primary camera.
    Once,
    /// Once for every shadow-casting light.
    PerShadow,
}

/// One recording: the pass at position `pass` of the render list, for `view`.
#[derive(Debug, Clone, Copy, PartialEq, Eq, Structural)]
pub struct RecordTask {
    pub view: Viewpoint,
    pub pass: usize,
}

/// Where a submitted command buffer comes from.
#[derive(Debug, Clone, Copy, PartialEq, Eq, Structural)]
pub enum Submitted {
    /// The primary encoder, which holds the work of applying instructions and
    /// the culling dispatches.
    Primary,
    /// The recording of a task.
    Recorded(RecordTask),
}

/// Whether a pass of the given rate runs for the given view.
pub open spec fn runs_for(rate: RunRate, view: Viewpoint) -> bool {
    match view {
        Viewpoint::Shadow(_) => rate == RunRate::PerShadow,
        Viewpoint::Camera => rate == RunRate::Once,
    }
}

/// The recordings for one view: the passes that run for it, in list order.
pub open spec fn tasks_of_view(view: Viewpoint, passes: Seq<RunRate>) -> Seq<RecordTask>
    decreases passes.len(),
{
    if passes.len() == 0 {
        Seq::empty()
    } else {
        let earlier = tasks_of_view(view, passes.drop_last());
        if runs_for(passes.last(), view) {
            earlier.push(RecordTask { view, pass: (passes.len() - 1) as usize })
        } else {
            earlier
        }
    }
}

/// The recordings for the first `lights` shadow-casting lights, light by light.
pub open spec fn tasks_of_shadows(lights: nat, passes: Seq<RunRate>) -> Seq<RecordTask>
    decreases lights,
{
    if lights == 0 {
        Seq::empty()
    } else {
        tasks_of_shadows((lights - 1) as nat, passes) + tasks_of_view(
            Viewpoint::Shadow((lights - 1) as usize),
            passes,
        )
    }
}

/// All recordings of a frame with `lights` shadow-casting lights, in the order
/// they are handed to the worker pool.
pub open spec fn fan_out_of(lights: nat, passes: Seq<RunRate>) -> Seq<RecordTask> {
    tasks_of_shadows(lights, passes) + tasks_of_view(Viewpoint::Camera, passes)
}

/// The command buffers of a frame in the order they are submitted: the primary
/// encoder's, then one per recording, in the order of `tasks`.
pub open spec fn submission_of(tasks: Seq<RecordTask>) -> Seq<Submitted> {
    seq![Submitted::Primary] + Seq::new(tasks.len(), |k: int| Submitted::Recorded(tasks[k]))
}

/// Where a view stands in the order of a frame: the lights in their order,
/// then the camera.
pub open spec fn view_rank(view: Viewpoint, lights: nat) -> int {
    match view {
        Viewpoint::Shadow(light) => light as int,
        Viewpoint::Camera => lights as int,
    }
}

/// Whether a pass of the given rate runs for the given view.
pub fn rate_runs_for(rate: RunRate, view: Viewpoint) -> (runs: bool)
    ensures
        runs == runs_for(rate, view),
{
    match view {
        Viewpoint::Shadow(_) => match rate {
            RunRate::PerShadow => true,
            RunRate::Once => false,
        },
        Viewpoint::Camera => match rate {
            RunRate::Once => true,
            RunRate::PerShadow => false,
        },
    }
}

/// Appends the recordings for one view to `tasks`.
pub fn push_view_tasks(tasks: &mut Vec<RecordTask>, view: Viewpoint, passes: &Vec<RunRate>)
    ensures
        final(tasks)@ == old(tasks)@ + tasks_of_view(view, passes@),
{
    let ghost before = tasks@;
    let mut k: usize = 0;
    while k < passes.len()
        invariant
            k <= passes.len(),
            tasks@ == before + tasks_of_view(view, passes@.take(k as int)),
        decreases passes.len() - k,
    {
        proof {
            let done = passes@.take(k + 1);
            assert(done.drop_last() == passes@.take(k as int));
            assert(done.last() == passes@[k as int]);
        }
        if rate_runs_for(passes[k], view) {
            tasks.push(RecordTask { view, pass: k });
        }
        k = k + 1;
    }
    proof {
        assert(passes@.take(passes@.len() as int) == passes@);
    }
}

/// Schedules the recordings of a frame with `lights` shadow-casting lights and
/// the render list `passes`.
pub fn fan_out(lights: usize, passes: &Vec<RunRate>) -> (tasks: Vec<RecordTask>)
    ensures
        tasks@ == fan_out_of(lights as nat, passes@),
{
    let mut tasks: Vec<RecordTask> = Vec::new();
    let mut light: usize = 0;
    while light < lights
        invariant
            light <= lights,
            tasks@ == tasks_of_shadows(light as nat, passes@),
        decreases lights - light,
    {
        push_view_tasks(&mut tasks, Viewpoint::Shadow(light), passes);
        light = light + 1;
    }
    push_view_tasks(&mut tasks, Viewpoint::Camera, passes);
    tasks
}

/// Names the command buffers of a frame in the order they are submitted.
pub fn submission_order(tasks: &Vec<RecordTask>) -> (order: Vec<Submitted>)
    ensures
        order@ == submission_of(tasks@),
{
    let mut order: Vec<Submitted> = Vec::new();
    order.push(Submitted::Primary);
    let mut k: usize = 0;
    while k < tasks.len()
        invariant
            k <= tasks.len(),
            order@ == submission_of(tasks@.take(k as int)),
        decreases tasks.len() - k,
    {
        order.push(Submitted::Recorded(tasks[k]));
        proof {
            assert(order@ == submission_of(tasks@.take(k + 1)));
        }
        k = k + 1;
    }
    proof {
        assert(tasks@.take(tasks@.len() as int) == tasks@);
    }
    order
}

/// Puts the command buffers of a frame in the order they are submitted in: the
/// primary encoder's first, then the recorded ones as they stand in `recorded`,
/// which is the order their tasks were handed out in.
pub fn assemble<B>(primary: B, recorded: Vec<B>) -> (buffers: Vec<B>)
    ensures
        buffers@ == seq![primary] + recorded@,
{
    let mut buffers: Vec<B> = Vec::new();
    buffers.push(primary);
    let mut rest = recorded;
    buffers.append(&mut rest);
    buffers
}

/// Whether a frame with `lights` shadow-casting lights and the render list
/// `passes` owes the recording `task`: its pass is in the list and runs for its
/// view, and its view is the camera or one of the frame's lights.
pub open spec fn is_due(task: RecordTask, lights: nat, passes: Seq<RunRate>) -> bool {
    &&& task.pass < passes.len()
    &&& runs_for(passes[task.pass as int], task.view)
    &&& task.view matches Viewpoint::Shadow(light) ==> light < lights
}

/// Whether `earlier` stands before `later` in the order of a frame: its view
/// comes first, or the views are the same and its pass comes first in the list.
pub open spec fn stands_before(earlier: RecordTask, later: RecordTask, lights: nat) -> bool {
    ||| view_rank(earlier.view, lights) < view_rank(later.view, lights)
    ||| (earlier.view == later.view && earlier.pass < later.pass)
}

/// Whether `tasks` is in the order of a frame throughout.
pub open spec fn in_frame_order(tasks: Seq<RecordTask>, lights: nat) -> bool {
    forall|i: int, j: int|
        0 <= i < j < tasks.len() ==> stands_before(#[trigger] tasks[i], #[trigger] tasks[j], lights)
}

proof fn lemma_contains_concat<A>(first: Seq<A>, second: Seq<A>, item: A)
    ensures
        (first + second).contains(item) <==> first.contains(item) || second.contains(item),
{
    if first.contains(item) {
        let k = choose|k: int| 0 <= k < first.len() && first[k] == item;
        assert((first + second)[k] == item);
    }
    if second.contains(item) {
        let k = choose|k: int| 0 <= k < second.len() && second[k] == item;
        assert((first + second)[first.len() + k] == item);
    }
    if (first + second).contains(item) {
        let k = choose|k: int| 0 <= k < (first + second).len() && (first + second)[k] == item;
        if k < first.len() {
            assert(first[k] == item);
        } else {
            assert(second[k - first.len()] == item);
        }
    }
}

proof fn lemma_tasks_of_view(view: Viewpoint, passes: Seq<RunRate>)
    requires
        passes.len() <= usize::MAX,
    ensures
        forall|task: RecordTask|
            #[trigger] tasks_of_view(view, passes).contains(task) <==> (task.view == view && task.pass < passes.len()
                && runs_for(passes[task.pass as int], view)),
        forall|i: int, j: int|
            0 <= i < j < tasks_of_view(view, passes).len() ==> (#[trigger] tasks_of_view(view, passes)[i]).pass
                < (#[trigger] tasks_of_view(view, passes)[j]).pass,
    decreases passes.len(),
{
    let tasks = tasks_of_view(view, passes);
    if passes.len() == 0 {
        assert forall|task: RecordTask| !tasks.contains(task) by {
            if tasks.contains(task) {
                let k = choose|k: int| 0 <= k < tasks.len() && tasks[k] == task;
            }
        }
    } else {
        let earlier = tasks_of_view(view, passes.drop_last());
        lemma_tasks_of_view(view, passes.drop_last());
        let newest = RecordTask { view, pass: (passes.len() - 1) as usize };
        assert forall|task: RecordTask|
            #[trigger] tasks.contains(task) <==> (task.view == view && task.pass < passes.len() && runs_for(
                passes[task.pass as int],
                view,
            )) by {
            if task.pass < passes.len() - 1 {
                assert(passes.drop_last()[task.pass as int] == passes[task.pass as int]);
            }
            if runs_for(passes.last(), view) {
                assert(tasks == earlier + seq![newest]);
                lemma_contains_concat(earlier, seq![newest], task);
                if seq![newest].contains(task) {
                    let k = choose|k: int| 0 <= k < seq![newest].len() && seq![newest][k] == task;
                }
                if task == newest {
                    assert(seq![newest][0] == task);
                }
            }
        }
        assert forall|i: int, j: int| 0 <= i < j < tasks.len() implies (#[trigger] tasks[i]).pass < (
        #[trigger] tasks[j]).pass by {
            if j == earlier.len() {
                assert(earlier.contains(earlier[i]));
            }
        }
    }
}

proof fn lemma_tasks_of_shadows(lights: nat, passes: Seq<RunRate>)
    requires
        lights <= usize::MAX,
        passes.len() <= usize::MAX,
    ensures
        forall|task: RecordTask|
            #[trigger] tasks_of_shadows(lights, passes).contains(task) <==> (task.view is Shadow && is_due(
                task,
                lights,
                passes,
            )),
        in_frame_order(tasks_of_shadows(lights, passes), lights),
    decreases lights,
{
    let tasks = tasks_of_shadows(lights, passes);
    if lights == 0 {
        assert forall|task: RecordTask| !tasks.contains(task) by {
            if tasks.contains(task) {
                let k = choose|k: int| 0 <= k < tasks.len() && tasks[k] == task;
            }
        }
    } else {
        let before = (lights - 1) as nat;
        let view = Viewpoint::Shadow(before as usize);
        let earlier = tasks_of_shadows(before, passes);
        let latest = tasks_of_view(view, passes);
        lemma_tasks_of_shadows(before, passes);
        lemma_tasks_of_view(view, passes);
        assert forall|task: RecordTask|
            #[trigger] tasks.contains(task) <==> (task.view is Shadow && is_due(task, lights, passes)) by {
            lemma_contains_concat(earlier, latest, task);
            assert(earlier.contains(task) <==> (task.view is Shadow && is_due(task, before, passes)));
            assert(latest.contains(task) <==> (task.view == view && task.pass < passes.len() && runs_for(
                passes[task.pass as int],
                view,
            )));
        }
        assert forall|i: int, j: int| 0 <= i < j < tasks.len() implies stands_before(
            #[trigger] tasks[i],
            #[trigger] tasks[j],
            lights,
        ) by {
            if j < earlier.len() {
                assert(earlier.contains(earlier[i]));
                assert(earlier.contains(earlier[j]));
                assert(stands_before(earlier[i], earlier[j], before));
                assert(tasks[i] == earlier[i]);
                assert(tasks[j] == earlier[j]);
            } else if i < earlier.len() {
                assert(earlier.contains(earlier[i]));
                assert(latest.contains(latest[j - earlier.len()]));
                assert(tasks[i] == earlier[i]);
                assert(tasks[j] == latest[j - earlier.len()]);
            } else {
                assert(latest.contains(latest[i - earlier.len()]));
                assert(latest.contains(latest[j - earlier.len()]));
                assert(latest[i - earlier.len()].pass < latest[j - earlier.len()].pass);
                assert(tasks[i] == latest[i - earlier.len()]);
                assert(tasks[j] == latest[j - earlier.len()]);
            }
        }
    }
}

/// The schedule of a frame holds exactly the recordings that the frame owes,
/// each once, in the order of the frame: light by light in the order of the
/// lights, then the camera, and within a view in the order of the render list.
pub proof fn lemma_fan_out_is_exact(lights: nat, passes: Seq<RunRate>)
    requires
        lights <= usize::MAX,
        passes.len() <= usize::MAX,
    ensures
        forall|task: RecordTask|
            #[trigger] fan_out_of(lights, passes).contains(task) <==> is_due(task, lights, passes),
        in_frame_order(fan_out_of(lights, passes), lights),
{
    let tasks = fan_out_of(lights, passes);
    let shadows = tasks_of_shadows(lights, passes);
    let camera = tasks_of_view(Viewpoint::Camera, passes);
    lemma_tasks_of_shadows(lights, passes);
    lemma_tasks_of_view(Viewpoint::Camera, passes);
    assert forall|task: RecordTask| #[trigger] tasks.contains(task) <==> is_due(task, lights, passes) by {
        lemma_contains_concat(shadows, camera, task);
    }
    assert forall|i: int, j: int| 0 <= i < j < tasks.len() implies stands_before(
        #[trigger] tasks[i],
        #[trigger] tasks[j],
        lights,
    ) by {
        if j < shadows.len() {
            assert(stands_before(shadows[i], shadows[j], lights));
            assert(tasks[i] == shadows[i]);
            assert(tasks[j] == shadows[j]);
        } else if i < shadows.len() {
            assert(shadows.contains(shadows[i]));
            assert(camera.contains(camera[j - shadows.len()]));
            assert(tasks[i] == shadows[i]);
            assert(tasks[j] == camera[j - shadows.len()]);
        } else {
            assert(camera.contains(camera[i - shadows.len()]));
            assert(camera.contains(camera[j - shadows.len()]));
            assert(camera[i - shadows.len()].pass < camera[j - shadows.len()].pass);
            assert(tasks[i] == camera[i - shadows.len()]);
            assert(tasks[j] == camera[j - shadows.len()]);
        }
    }
}

/// The primary encoder's command buffer is submitted first, and after it the
/// recordings in the order of the schedule, whatever order their tasks
/// finished in.
pub proof fn lemma_submission_keeps_schedule(tasks: Seq<RecordTask>)
    ensures
        submission_of(tasks).len() == tasks.len() + 1,
        submission_of(tasks)[0] == Submitted::Primary,
        forall|k: int| 0 <= k < tasks.len() ==> #[trigger] submission_of(tasks)[k + 1] == Submitted::Recorded(tasks[k]),
{
}

} // verus!
