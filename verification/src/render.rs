//! The render loop as a state machine.
//!
//! A frame alternates between deciding and doing. The deciding is here: a
//! [`RenderLoop`] says which step comes next; its caller performs the step and
//! reports what came of it. Some of what a frame does depends on what its
//! earlier steps found, such as the number of objects, the number of lights
//! and whether the output target could be acquired, so the course of a frame
//! becomes known as the frame goes on.

use crate::frame::{
    finish_script, finish_steps, frame_steps, lemma_record_steps_split, lights_script, lights_steps,
    prepare_script, prepare_steps, shadow_steps, view_steps, FrameStep, Pool,
};
use crate::culling::Viewpoint;
use crate::mode::RendererMode;
use crate::order::{
    lemma_presented_once_at_the_end, lemma_shadow_steps_have_a_view, lemma_view_steps_have_a_view,
};
use crate::schedule::RunRate;
use vstd::prelude::*;

verus! {

/// What the caller reports of the step it has performed.
#[derive(Debug, Clone, Copy, PartialEq, Eq)]
pub enum Outcome {
    /// The step is done and there is nothing to report.
    Done,
    /// The pool that was reconciled holds this many entries. For the pool of
    /// directional lights these are the lights that cast shadows.
    Counted(usize),
    /// Whether the output target has a view to render into after the attempt
    /// to acquire it.
    Acquired(bool),
}

/// What a frame reports when it is over. Nothing yet: the type is kept for
/// what frames will measure.
#[derive(Debug, Default, Clone, Copy, PartialEq, Eq)]
pub struct RendererStatistics {}

/// What is known of a frame.
pub struct Facts {
    pub mode: RendererMode,
    /// The number of mutations that the frame's batch came to.
    pub mutations: usize,
    /// Whether the batch staged options.
    pub staged: bool,
    /// The run rates of the passes of the render list.
    pub passes: Seq<RunRate>,
    /// The number of objects, once the object pool has been reconciled.
    pub objects: usize,
    /// The number of shadow-casting lights, once the light pool has been
    /// reconciled.
    pub lights: usize,
    /// Whether the output target was acquired, once that has been tried.
    pub acquired: bool,
}

/// The course of a frame of which `facts` hold: the first part, the lights up
/// to the acquisition of the output target, and the rest.
#[verifier::opaque]
pub open spec fn course(facts: Facts) -> Seq<FrameStep> {
    prepare_steps(facts.mode, facts.mutations as nat, facts.staged) + lights_steps(
        facts.mode,
        facts.lights as nat,
        facts.objects,
        facts.passes,
    ) + finish_steps(facts.mode, facts.acquired, facts.objects, facts.passes)
}

/// What is known of a frame after the step `last` came to `outcome`. The count
/// of the object pool and that of the light pool are taken from the steps that
/// reconcile them, and whether the output target was acquired from the step
/// that acquires it. Any other report changes nothing.
pub open spec fn learn(facts: Facts, last: Option<FrameStep>, outcome: Outcome) -> Facts {
    match (last, outcome) {
        (Some(FrameStep::Ready { pool: Pool::Objects, .. }), Outcome::Counted(count)) => Facts {
            objects: count,
            ..facts
        },
        (Some(FrameStep::Ready { pool: Pool::DirectionalLights, .. }), Outcome::Counted(count)) => Facts {
            lights: count,
            ..facts
        },
        (Some(FrameStep::Acquire), Outcome::Acquired(acquired)) => Facts { acquired, ..facts },
        _ => facts,
    }
}

/// The step that was issued last, when `issued` steps of the course have been
/// issued.
pub open spec fn last_issued(facts: Facts, issued: nat) -> Option<FrameStep> {
    if 0 < issued <= course(facts).len() {
        Some(course(facts)[issued - 1])
    } else {
        None
    }
}

/// One turn of the render loop: of a frame of which `facts` are known and
/// `issued` steps have been issued, the caller reports `outcome` for the step
/// issued last. The turn yields what is known then, the number of steps issued
/// then, and the step that is issued, which is the next of the course as it is
/// known then, or none if the course is at its end.
pub open spec fn advance(facts: Facts, issued: nat, outcome: Outcome) -> (Facts, nat, Option<FrameStep>) {
    let known = learn(facts, last_issued(facts, issued), outcome);
    if issued < course(known).len() {
        (known, issued + 1, Some(course(known)[issued as int]))
    } else {
        (known, issued, None)
    }
}

/// A run of turns from the start of a frame, one for each of `outcomes`: what
/// is known at its end, and the steps issued in it, in order.
pub open spec fn run(facts: Facts, outcomes: Seq<Outcome>) -> (Facts, Seq<FrameStep>)
    decreases outcomes.len(),
{
    if outcomes.len() == 0 {
        (facts, Seq::empty())
    } else {
        let (before, steps) = run(facts, outcomes.drop_last());
        let (known, _, step) = advance(before, steps.len(), outcomes.last());
        match step {
            Some(step) => (known, steps.push(step)),
            None => (known, steps),
        }
    }
}

#[verifier::opaque]
spec fn opening(mode: RendererMode, mutations: usize, staged: bool) -> Seq<FrameStep> {
    prepare_steps(mode, mutations as nat, staged)
}

#[verifier::opaque]
spec fn middle(mode: RendererMode, lights: usize, objects: usize, passes: Seq<RunRate>) -> Seq<FrameStep> {
    lights_steps(mode, lights as nat, objects, passes)
}

#[verifier::opaque]
spec fn ending(mode: RendererMode, acquired: bool, objects: usize, passes: Seq<RunRate>) -> Seq<FrameStep> {
    finish_steps(mode, acquired, objects, passes)
}

enum Part {
    Opening,
    Middle,
    Ending,
}

/// A frame in progress.
pub struct RenderLoop {
    mode: RendererMode,
    mutations: usize,
    staged: bool,
    passes: Vec<RunRate>,
    objects: usize,
    lights: usize,
    acquired: bool,
    part: Part,
    script: Vec<FrameStep>,
    at: usize,
}

impl RenderLoop {
    #[verifier::type_invariant]
    spec fn well_formed(self) -> bool {
        &&& self.at <= self.script@.len()
        &&& match self.part {
            Part::Opening => self.script@ == opening(self.mode, self.mutations, self.staged),
            Part::Middle => {
                &&& self.at >= 1
                &&& self.script@ == middle(self.mode, self.lights, self.objects, self.passes@)
            },
            Part::Ending => {
                &&& self.at >= 1
                &&& self.script@ == ending(self.mode, self.acquired, self.objects, self.passes@)
            },
        }
    }

    /// What is known of the frame so far.
    pub closed spec fn facts(self) -> Facts {
        Facts {
            mode: self.mode,
            mutations: self.mutations,
            staged: self.staged,
            passes: self.passes@,
            objects: self.objects,
            lights: self.lights,
            acquired: self.acquired,
        }
    }

    /// The number of steps issued so far.
    pub closed spec fn issued(self) -> nat {
        let opened = opening(self.mode, self.mutations, self.staged).len();
        let lit = middle(self.mode, self.lights, self.objects, self.passes@).len();
        match self.part {
            Part::Opening => self.at as nat,
            Part::Middle => (opened + self.at) as nat,
            Part::Ending => (opened + lit + self.at) as nat,
        }
    }

    /// Begins a frame whose batch came to `mutations` mutations and staged
    /// options or not, for a renderer of the given mode and render list.
    /// Nothing is issued yet, and what will only be found out is taken to be
    /// nil until then.
    pub fn start(mode: RendererMode, mutations: usize, staged: bool, passes: Vec<RunRate>) -> (frame: Self)
        ensures
            frame.issued() == 0,
            frame.facts() == (Facts {
                mode,
                mutations,
                staged,
                passes: passes@,
                objects: 0,
                lights: 0,
                acquired: false,
            }),
    {
        let script = opening_script(mode, mutations, staged);
        RenderLoop {
            mode,
            mutations,
            staged,
            passes,
            objects: 0,
            lights: 0,
            acquired: false,
            part: Part::Opening,
            script,
            at: 0,
        }
    }

    /// The statistics of the frame, which there are once every step of its
    /// course has been issued and not before. A frame that acquired its output
    /// target has asked for it to be presented by then.
    pub fn statistics(&self) -> (statistics: Option<RendererStatistics>)
        ensures
            statistics is Some <==> self.issued() == course(self.facts()).len(),
    {
        proof {
            use_type_invariant(self);
            lemma_course_in_parts(self.facts());
            lemma_joined(
                opening(self.mode, self.mutations, self.staged),
                middle(self.mode, self.lights, self.objects, self.passes@),
                ending(self.mode, self.acquired, self.objects, self.passes@),
            );
        }
        match self.part {
            Part::Ending => {
                if self.at == self.script.len() {
                    Some(RendererStatistics {  })
                } else {
                    None
                }
            },
            _ => None,
        }
    }

    /// Takes in what the step issued last came to, and issues the next step of
    /// the frame, or none when the frame is over. This is one turn of the
    /// render loop, as [`advance`] defines it.
    pub fn next(self, outcome: Outcome) -> (after: (Self, Option<FrameStep>))
        ensures
            (after.0.facts(), after.0.issued(), after.1) == advance(self.facts(), self.issued(), outcome),
            self.issued() <= course(self.facts()).len(),
            after.0.issued() <= course(after.0.facts()).len(),
    {
        proof {
            use_type_invariant(&self);
        }
        let ghost before = self;
        let RenderLoop { mode, mutations, staged, passes, objects, lights, acquired, part, script, at } = self;
        let ghost head = opening(mode, mutations, staged);
        let ghost lit = middle(mode, lights, objects, passes@);
        let ghost tail = ending(mode, acquired, objects, passes@);
        proof {
            lemma_course_in_parts(before.facts());
            lemma_joined(head, lit, tail);
            if at >= 1 {
                match part {
                    Part::Opening => {},
                    Part::Middle => {
                        lemma_middle_reports(mode, lights, objects, passes@, at - 1);
                    },
                    Part::Ending => {
                        lemma_ending_reports(mode, acquired, objects, passes@, at - 1);
                    },
                }
            }
        }
        let mut objects = objects;
        let mut lights = lights;
        let mut acquired = acquired;
        if at >= 1 {
            match (script[at - 1], outcome) {
                (FrameStep::Ready { pool: Pool::Objects, .. }, Outcome::Counted(count)) => {
                    objects = count;
                },
                (FrameStep::Ready { pool: Pool::DirectionalLights, .. }, Outcome::Counted(count)) => {
                    lights = count;
                },
                (FrameStep::Acquire, Outcome::Acquired(got)) => {
                    acquired = got;
                },
                _ => {},
            }
        }
        let ghost facts = Facts { mode, mutations, staged, passes: passes@, objects, lights, acquired };
        let ghost now_lit = middle(mode, lights, objects, passes@);
        let ghost now_tail = ending(mode, acquired, objects, passes@);
        proof {
            assert(facts == learn(before.facts(), last_issued(before.facts(), before.issued()), outcome));
            lemma_course_in_parts(facts);
            lemma_joined(head, now_lit, now_tail);
        }
        if at < script.len() {
            let step = script[at];
            let after = RenderLoop {
                mode,
                mutations,
                staged,
                passes,
                objects,
                lights,
                acquired,
                part,
                script,
                at: at + 1,
            };
            (after, Some(step))
        } else {
            match part {
                Part::Opening => {
                    let script = middle_script(mode, lights, objects, &passes);
                    let step = script[0];
                    let after = RenderLoop {
                        mode,
                        mutations,
                        staged,
                        passes,
                        objects,
                        lights,
                        acquired,
                        part: Part::Middle,
                        script,
                        at: 1,
                    };
                    (after, Some(step))
                },
                Part::Middle => {
                    let script = ending_script(mode, acquired, objects, &passes);
                    let step = script[0];
                    let after = RenderLoop {
                        mode,
                        mutations,
                        staged,
                        passes,
                        objects,
                        lights,
                        acquired,
                        part: Part::Ending,
                        script,
                        at: 1,
                    };
                    (after, Some(step))
                },
                Part::Ending => {
                    let after = RenderLoop {
                        mode,
                        mutations,
                        staged,
                        passes,
                        objects,
                        lights,
                        acquired,
                        part: Part::Ending,
                        script,
                        at,
                    };
                    (after, None)
                },
            }
        }
    }
}

fn opening_script(mode: RendererMode, mutations: usize, staged: bool) -> (script: Vec<FrameStep>)
    ensures
        script@ == opening(mode, mutations, staged),
{
    proof {
        reveal(opening);
    }
    prepare_script(mode, mutations, staged)
}

fn middle_script(mode: RendererMode, lights: usize, objects: usize, passes: &Vec<RunRate>) -> (script: Vec<
    FrameStep,
>)
    ensures
        script@ == middle(mode, lights, objects, passes@),
        script@.len() >= 1,
{
    proof {
        reveal(middle);
    }
    lights_script(mode, lights, objects, passes)
}

fn ending_script(mode: RendererMode, acquired: bool, objects: usize, passes: &Vec<RunRate>) -> (script: Vec<
    FrameStep,
>)
    ensures
        script@ == ending(mode, acquired, objects, passes@),
        script@.len() >= 1,
{
    proof {
        reveal(ending);
    }
    finish_script(mode, acquired, objects, passes)
}

proof fn lemma_course_in_parts(facts: Facts)
    ensures
        course(facts) == opening(facts.mode, facts.mutations, facts.staged) + middle(
            facts.mode,
            facts.lights,
            facts.objects,
            facts.passes,
        ) + ending(facts.mode, facts.acquired, facts.objects, facts.passes),
        opening(facts.mode, facts.mutations, facts.staged).len() >= 1,
        middle(facts.mode, facts.lights, facts.objects, facts.passes).len() >= 1,
        ending(facts.mode, facts.acquired, facts.objects, facts.passes).len() >= 1,
{
    reveal(course);
    reveal(opening);
    reveal(middle);
    reveal(ending);
}

/// Where the members of three sequences stand in the three joined, and how far
/// a prefix of the whole reaches into them.
proof fn lemma_joined(head: Seq<FrameStep>, lit: Seq<FrameStep>, tail: Seq<FrameStep>)
    ensures
        (head + lit + tail).len() == head.len() + lit.len() + tail.len(),
        forall|k: int| 0 <= k < head.len() ==> #[trigger] (head + lit + tail)[k] == head[k],
        forall|k: int| 0 <= k < lit.len() ==> #[trigger] (head + lit + tail)[head.len() + k] == lit[k],
        forall|k: int|
            0 <= k < tail.len() ==> #[trigger] (head + lit + tail)[head.len() + lit.len() + k] == tail[k],
        forall|n: int| 0 <= n <= head.len() ==> #[trigger] (head + lit + tail).take(n) == head.take(n),
        forall|n: int|
            0 <= n <= lit.len() ==> #[trigger] (head + lit + tail).take(head.len() + n) == head + lit.take(n),
{
    let whole = head + lit + tail;
    assert forall|n: int| 0 <= n <= head.len() implies #[trigger] whole.take(n) == head.take(n) by {
        assert(whole.take(n) =~= head.take(n));
    }
    assert forall|n: int| 0 <= n <= lit.len() implies #[trigger] whole.take(head.len() + n) == head + lit.take(
        n,
    ) by {
        assert(whole.take(head.len() + n) =~= head + lit.take(n));
    }
}

proof fn lemma_middle_reports(mode: RendererMode, lights: usize, objects: usize, passes: Seq<RunRate>, k: int)
    requires
        0 <= k < middle(mode, lights, objects, passes).len(),
    ensures
        !(middle(mode, lights, objects, passes)[k] is Ready),
        middle(mode, lights, objects, passes)[k] is Acquire ==> k == middle(mode, lights, objects, passes).len()
            - 1,
{
    reveal(middle);
    let shadows = shadow_steps(mode, lights as nat, objects, passes);
    if k < shadows.len() {
        lemma_shadow_steps_have_a_view(mode, lights as nat, objects, passes, k);
    }
}

proof fn lemma_ending_reports(mode: RendererMode, acquired: bool, objects: usize, passes: Seq<RunRate>, k: int)
    requires
        0 <= k < ending(mode, acquired, objects, passes).len(),
    ensures
        !(ending(mode, acquired, objects, passes)[k] is Ready),
        !(ending(mode, acquired, objects, passes)[k] is Acquire),
{
    reveal(ending);
    if acquired {
        let camera = view_steps(mode, Viewpoint::Camera, objects, passes);
        if k < camera.len() {
            lemma_view_steps_have_a_view(mode, Viewpoint::Camera, objects, passes, k);
        }
    }
}

/// What a frame finds out never changes a step that it has issued already: the
/// steps issued before a turn are the same in the course as it is known after
/// the turn, and that course is not shorter than they are.
pub proof fn lemma_learning_keeps_the_past(facts: Facts, issued: nat, outcome: Outcome)
    requires
        issued <= course(facts).len(),
    ensures
        ({
            let known = learn(facts, last_issued(facts, issued), outcome);
            &&& issued <= course(known).len()
            &&& course(known).take(issued as int) == course(facts).take(issued as int)
        }),
{
    let known = learn(facts, last_issued(facts, issued), outcome);
    let head = opening(facts.mode, facts.mutations, facts.staged);
    let lit = middle(facts.mode, facts.lights, facts.objects, facts.passes);
    let tail = ending(facts.mode, facts.acquired, facts.objects, facts.passes);
    lemma_course_in_parts(facts);
    lemma_course_in_parts(known);
    lemma_joined(head, lit, tail);
    lemma_joined(
        head,
        middle(known.mode, known.lights, known.objects, known.passes),
        ending(known.mode, known.acquired, known.objects, known.passes),
    );
    if issued > 0 {
        let k = issued - 1;
        if k < head.len() {
            assert(course(facts)[k] == head[k]);
        } else if k < head.len() + lit.len() {
            assert(course(facts)[head.len() + (k - head.len())] == lit[k - head.len()]);
            lemma_middle_reports(facts.mode, facts.lights, facts.objects, facts.passes, k - head.len());
            assert(issued == head.len() + (issued - head.len()));
        } else {
            assert(course(facts)[head.len() + lit.len() + (k - head.len() - lit.len())] == tail[k - head.len()
                - lit.len()]);
            lemma_ending_reports(
                facts.mode,
                facts.acquired,
                facts.objects,
                facts.passes,
                k - head.len() - lit.len(),
            );
        }
    }
}

/// However a frame is run, the steps it has issued are the beginning of its
/// course as it is known at that point.
pub proof fn lemma_run_follows_course(facts: Facts, outcomes: Seq<Outcome>)
    ensures
        ({
            let (known, steps) = run(facts, outcomes);
            &&& steps.len() <= course(known).len()
            &&& steps == course(known).take(steps.len() as int)
        }),
    decreases outcomes.len(),
{
    if outcomes.len() > 0 {
        let (before, steps) = run(facts, outcomes.drop_last());
        lemma_run_follows_course(facts, outcomes.drop_last());
        lemma_learning_keeps_the_past(before, steps.len(), outcomes.last());
        let (known, _, step) = advance(before, steps.len(), outcomes.last());
        if step is Some {
            assert(course(known).take(steps.len() as int + 1) =~= course(known).take(steps.len() as int).push(
                course(known)[steps.len() as int],
            ));
        }
    }
}

/// The course of a frame whose output target was acquired is the whole frame as
/// the laws of the order of a frame speak of it.
pub proof fn lemma_course_of_an_acquired_frame(facts: Facts)
    requires
        facts.acquired,
    ensures
        course(facts) == frame_steps(
            facts.mode,
            facts.mutations as nat,
            facts.staged,
            facts.lights as nat,
            facts.objects,
            facts.passes,
        ),
{
    reveal(course);
    lemma_record_steps_split(facts.mode, facts.lights as nat, facts.objects, facts.passes);
    assert(course(facts) =~= frame_steps(
        facts.mode,
        facts.mutations as nat,
        facts.staged,
        facts.lights as nat,
        facts.objects,
        facts.passes,
    ));
}

/// A frame whose output target was acquired is over only once it has asked for
/// the target to be presented: its course ends with the step that presents, so
/// its statistics are not to be had before that step is issued.
pub proof fn lemma_acquired_frame_ends_by_presenting(facts: Facts)
    requires
        facts.acquired,
    ensures
        course(facts).len() >= 1,
        course(facts).last() == FrameStep::Present,
{
    lemma_course_of_an_acquired_frame(facts);
    lemma_presented_once_at_the_end(
        facts.mode,
        facts.mutations as nat,
        facts.staged,
        facts.lights as nat,
        facts.objects,
        facts.passes,
    );
}

} // verus!
