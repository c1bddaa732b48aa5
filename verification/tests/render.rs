use rend3::culling::Viewpoint;
use rend3::frame::{finish_script, lights_script, prepare_script, FrameStep, Pool};
use rend3::mode::RendererMode;
use rend3::render::{Outcome, RenderLoop, RendererStatistics};
use rend3::schedule::RunRate;

/// Runs a frame to its end, reporting `objects`, `lights` and `acquired` at the
/// steps that ask for them, and gathers the steps it issues.
fn run(
    mode: RendererMode,
    mutations: usize,
    staged: bool,
    passes: &Vec<RunRate>,
    objects: usize,
    lights: usize,
    acquired: bool,
) -> Vec<FrameStep> {
    let mut frame = RenderLoop::start(mode, mutations, staged, passes.clone());
    let mut outcome = Outcome::Done;
    let mut issued = Vec::new();
    loop {
        let (next, step) = frame.next(outcome);
        frame = next;
        let step = match step {
            Some(step) => step,
            None => break,
        };
        outcome = match step {
            FrameStep::Ready { pool: Pool::Objects, .. } => Outcome::Counted(objects),
            FrameStep::Ready { pool: Pool::DirectionalLights, .. } => Outcome::Counted(lights),
            FrameStep::Acquire => Outcome::Acquired(acquired),
            _ => Outcome::Done,
        };
        issued.push(step);
        assert!(issued.len() < 10_000);
    }
    issued
}

fn course(
    mode: RendererMode,
    mutations: usize,
    staged: bool,
    passes: &Vec<RunRate>,
    objects: usize,
    lights: usize,
    acquired: bool,
) -> Vec<FrameStep> {
    let mut steps = prepare_script(mode, mutations, staged);
    steps.extend(lights_script(mode, lights, objects, passes));
    steps.extend(finish_script(mode, acquired, objects, passes));
    steps
}

#[test]
fn a_frame_issues_its_course_step_by_step() {
    let passes = vec![RunRate::Once, RunRate::PerShadow, RunRate::Once];
    for mode in [RendererMode::CPUPowered, RendererMode::GPUPowered] {
        for staged in [false, true] {
            for lights in 0..3 {
                assert_eq!(
                    run(mode, 3, staged, &passes, 40, lights, true),
                    course(mode, 3, staged, &passes, 40, lights, true)
                );
            }
        }
    }
}

#[test]
fn the_counts_that_a_frame_is_told_size_its_culling_outputs() {
    let passes = vec![RunRate::PerShadow];
    let steps = run(RendererMode::GPUPowered, 0, false, &passes, 17, 2, true);
    let outputs: Vec<(Viewpoint, usize)> = steps
        .iter()
        .filter_map(|step| match step {
            FrameStep::PrepareCull { output } => Some((output.view, output.records)),
            _ => None,
        })
        .collect();
    assert_eq!(
        outputs,
        vec![(Viewpoint::Shadow(0), 17), (Viewpoint::Shadow(1), 17), (Viewpoint::Camera, 17)]
    );
}

#[test]
fn a_frame_that_cannot_acquire_its_output_ends_without_camera_and_without_presenting() {
    let passes = vec![RunRate::Once, RunRate::PerShadow];
    let steps = run(RendererMode::CPUPowered, 1, true, &passes, 4, 1, false);
    assert_eq!(steps, course(RendererMode::CPUPowered, 1, true, &passes, 4, 1, false));
    assert_eq!(
        steps[steps.len() - 6..],
        [
            FrameStep::Acquire,
            FrameStep::FinishEncoder,
            FrameStep::Drain,
            FrameStep::WaitIdle,
            FrameStep::Submit,
            FrameStep::Reclaim,
        ]
    );
    assert!(!steps.contains(&FrameStep::Present));
    assert!(steps.iter().all(|step| !matches!(
        step,
        FrameStep::PrepareCull { output } if output.view == Viewpoint::Camera
    )));
    assert!(steps.contains(&FrameStep::Apply { mutation: 0 }));
}

#[test]
fn a_frame_that_is_told_nothing_takes_every_count_for_nil_and_the_output_for_not_acquired() {
    let passes = vec![RunRate::Once, RunRate::PerShadow];
    let mut frame = RenderLoop::start(RendererMode::CPUPowered, 0, false, passes.clone());
    let mut issued = Vec::new();
    loop {
        let (next, step) = frame.next(Outcome::Done);
        frame = next;
        match step {
            Some(step) => issued.push(step),
            None => break,
        }
    }
    assert_eq!(issued, course(RendererMode::CPUPowered, 0, false, &passes, 0, 0, false));
}

#[test]
fn a_report_at_a_step_that_does_not_ask_for_it_changes_nothing() {
    let passes = vec![RunRate::PerShadow];
    let mut frame = RenderLoop::start(RendererMode::CPUPowered, 1, false, passes.clone());
    let mut outcome = Outcome::Done;
    let mut issued = Vec::new();
    loop {
        let (next, step) = frame.next(outcome);
        frame = next;
        let step = match step {
            Some(step) => step,
            None => break,
        };
        outcome = match step {
            FrameStep::Ready { pool: Pool::Objects, .. } => Outcome::Counted(3),
            FrameStep::Ready { pool: Pool::DirectionalLights, .. } => Outcome::Counted(1),
            FrameStep::Ready { .. } => Outcome::Counted(99),
            FrameStep::Acquire => Outcome::Acquired(true),
            FrameStep::Apply { .. } => Outcome::Acquired(true),
            FrameStep::Bundle { .. } => Outcome::Acquired(false),
            _ => Outcome::Counted(1234),
        };
        issued.push(step);
    }
    assert_eq!(issued, course(RendererMode::CPUPowered, 1, false, &passes, 3, 1, true));
}

#[test]
fn a_frame_that_is_over_issues_nothing_more() {
    let mut frame = RenderLoop::start(RendererMode::GPUPowered, 0, false, Vec::new());
    let mut steps = 0;
    loop {
        let (next, step) = frame.next(Outcome::Acquired(true));
        frame = next;
        if step.is_none() {
            break;
        }
        steps += 1;
    }
    assert!(steps > 0);
    for outcome in [Outcome::Done, Outcome::Counted(5), Outcome::Acquired(true)] {
        let (next, step) = frame.next(outcome);
        frame = next;
        assert_eq!(step, None);
    }
}

#[test]
fn the_first_step_of_a_frame_opens_the_primary_encoder() {
    let frame = RenderLoop::start(RendererMode::CPUPowered, 5, true, vec![RunRate::Once]);
    let (_, step) = frame.next(Outcome::Done);
    assert_eq!(step, Some(FrameStep::BeginEncoder));
}

#[test]
fn the_statistics_are_there_once_the_last_step_is_issued_and_not_before() {
    let mut frame = RenderLoop::start(RendererMode::CPUPowered, 1, false, vec![RunRate::Once]);
    let mut outcome = Outcome::Done;
    let mut last = None;
    loop {
        assert_eq!(frame.statistics().is_some(), last == Some(FrameStep::Present));
        let (next, step) = frame.next(outcome);
        frame = next;
        match step {
            Some(step) => {
                outcome = match step {
                    FrameStep::Acquire => Outcome::Acquired(true),
                    _ => Outcome::Done,
                };
                last = Some(step);
            }
            None => break,
        }
    }
    assert_eq!(last, Some(FrameStep::Present));
    assert_eq!(frame.statistics(), Some(RendererStatistics {}));
}

#[test]
fn an_abandoned_frame_has_its_statistics_after_its_last_step_too() {
    let mut frame = RenderLoop::start(RendererMode::GPUPowered, 0, true, vec![RunRate::PerShadow]);
    let mut last = None;
    loop {
        assert_eq!(frame.statistics().is_some(), last == Some(FrameStep::Reclaim));
        let (next, step) = frame.next(Outcome::Acquired(false));
        frame = next;
        match step {
            Some(step) => last = Some(step),
            None => break,
        }
    }
    assert_eq!(last, Some(FrameStep::Reclaim));
    assert!(frame.statistics().is_some());
}
