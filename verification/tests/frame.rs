use rend3::binding::{bundle, frame_groups, skybox_source, BindGroup, SkyboxSource, Slot};
use rend3::culling::{label, prepare, strategy, CullOutput, CullStrategy, Viewpoint};
use rend3::frame::{
    finish_script, lights_script, prepare_script, push_view_script, FrameStep, Pool, Priority,
};
use rend3::instruction::{apply_batch, Instruction, SceneTypes, TextureHandle};
use rend3::mode::RendererMode;
use rend3::schedule::{fan_out, RecordTask, RunRate};

struct Plain;

impl SceneTypes for Plain {
    type Mesh = ();
    type TextureFormat = ();
    type Material = ();
    type MaterialChange = ();
    type Object = ();
    type Transform = ();
    type DirectionalLight = ();
    type DirectionalLightChange = ();
    type Direction = ();
    type Options = u32;
    type CameraData = u32;
}

fn ready(pool: Pool, aggregate: bool) -> FrameStep {
    FrameStep::Ready { pool, aggregate }
}

fn bind(group: BindGroup) -> FrameStep {
    FrameStep::Bind { group }
}

fn view_head(view: Viewpoint, records: usize, strategy: CullStrategy) -> Vec<FrameStep> {
    vec![
        FrameStep::PrepareCull { output: CullOutput { view, records } },
        FrameStep::BindObjects { view },
        FrameStep::UploadUniform { view },
        FrameStep::Cull { view, strategy },
        FrameStep::Bundle { view },
    ]
}

fn spawn(view: Viewpoint, pass: usize) -> FrameStep {
    FrameStep::Spawn { task: RecordTask { view, pass } }
}

/// The second part of a frame whose output target is acquired.
fn record_script(mode: RendererMode, lights: usize, objects: usize, passes: &Vec<RunRate>) -> Vec<FrameStep> {
    let mut script = lights_script(mode, lights, objects, passes);
    script.extend(finish_script(mode, true, objects, passes));
    script
}

fn position(script: &[FrameStep], wanted: FrameStep) -> usize {
    script.iter().position(|step| *step == wanted).expect("the step is in the script")
}

fn whole_frame(
    mode: RendererMode,
    mutations: usize,
    staged: bool,
    lights: usize,
    objects: usize,
    passes: &Vec<RunRate>,
) -> Vec<FrameStep> {
    let mut script = prepare_script(mode, mutations, staged);
    script.extend(record_script(mode, lights, objects, passes));
    script
}

#[test]
fn the_first_part_of_a_cpu_frame() {
    assert_eq!(
        prepare_script(RendererMode::CPUPowered, 2, true),
        vec![
            FrameStep::BeginEncoder,
            FrameStep::Apply { mutation: 0 },
            FrameStep::Apply { mutation: 1 },
            ready(Pool::Textures2D, false),
            ready(Pool::TexturesCube, false),
            ready(Pool::Materials, false),
            ready(Pool::Objects, false),
            ready(Pool::DirectionalLights, false),
            bind(BindGroup::General),
            bind(BindGroup::Shadow),
            bind(BindGroup::Skybox),
            FrameStep::ReleasePools,
            FrameStep::UpdateOptions,
        ]
    );
}

#[test]
fn the_first_part_of_a_gpu_frame() {
    assert_eq!(
        prepare_script(RendererMode::GPUPowered, 1, false),
        vec![
            FrameStep::BeginEncoder,
            FrameStep::Apply { mutation: 0 },
            ready(Pool::Textures2D, true),
            ready(Pool::TexturesCube, true),
            FrameStep::StartRecompile,
            ready(Pool::Materials, false),
            ready(Pool::Objects, false),
            ready(Pool::DirectionalLights, false),
            bind(BindGroup::ObjectInput),
            bind(BindGroup::General),
            bind(BindGroup::Material),
            bind(BindGroup::Shadow),
            bind(BindGroup::Skybox),
            FrameStep::ReleasePools,
            FrameStep::AwaitRecompile,
        ]
    );
}

#[test]
fn a_frame_without_instructions_still_reconciles_and_binds() {
    assert_eq!(
        prepare_script(RendererMode::CPUPowered, 0, false),
        vec![
            FrameStep::BeginEncoder,
            ready(Pool::Textures2D, false),
            ready(Pool::TexturesCube, false),
            ready(Pool::Materials, false),
            ready(Pool::Objects, false),
            ready(Pool::DirectionalLights, false),
            bind(BindGroup::General),
            bind(BindGroup::Shadow),
            bind(BindGroup::Skybox),
            FrameStep::ReleasePools,
        ]
    );
}

#[test]
fn the_second_part_of_a_cpu_frame_with_two_lights() {
    let passes = vec![RunRate::Once, RunRate::PerShadow];
    let mut expected = Vec::new();
    expected.extend(view_head(Viewpoint::Shadow(0), 5, CullStrategy::Cpu));
    expected.push(spawn(Viewpoint::Shadow(0), 1));
    expected.extend(view_head(Viewpoint::Shadow(1), 5, CullStrategy::Cpu));
    expected.push(spawn(Viewpoint::Shadow(1), 1));
    expected.push(FrameStep::Acquire);
    expected.extend(view_head(Viewpoint::Camera, 5, CullStrategy::Cpu));
    expected.push(spawn(Viewpoint::Camera, 0));
    expected.extend(vec![
        FrameStep::FinishEncoder,
        FrameStep::Drain,
        FrameStep::WaitIdle,
        FrameStep::Submit,
        FrameStep::Reclaim,
        FrameStep::Present,
    ]);
    assert_eq!(record_script(RendererMode::CPUPowered, 2, 5, &passes), expected);
}

#[test]
fn the_second_part_of_a_gpu_frame_without_lights_or_passes() {
    let mut expected = vec![FrameStep::Acquire];
    expected.extend(view_head(Viewpoint::Camera, 0, CullStrategy::Gpu));
    expected.extend(vec![
        FrameStep::FinishEncoder,
        FrameStep::Drain,
        FrameStep::WaitIdle,
        FrameStep::Submit,
        FrameStep::Reclaim,
        FrameStep::Present,
    ]);
    assert_eq!(record_script(RendererMode::GPUPowered, 0, 0, &Vec::new()), expected);
}

#[test]
fn push_view_script_appends_the_steps_of_one_view() {
    let passes = vec![RunRate::PerShadow, RunRate::Once, RunRate::PerShadow];
    let mut script = vec![FrameStep::Acquire];
    push_view_script(&mut script, RendererMode::GPUPowered, Viewpoint::Shadow(4), 12, &passes);
    let mut expected = vec![FrameStep::Acquire];
    expected.extend(view_head(Viewpoint::Shadow(4), 12, CullStrategy::Gpu));
    expected.push(spawn(Viewpoint::Shadow(4), 0));
    expected.push(spawn(Viewpoint::Shadow(4), 2));
    assert_eq!(script, expected);
}

#[test]
fn both_strategies_are_given_one_record_per_object() {
    let passes = vec![RunRate::Once, RunRate::PerShadow];
    for objects in [0usize, 1, 17, 4096] {
        let cpu = record_script(RendererMode::CPUPowered, 2, objects, &passes);
        let gpu = record_script(RendererMode::GPUPowered, 2, objects, &passes);
        assert_eq!(cpu.len(), gpu.len());
        let mut outputs = 0;
        for (on_cpu, on_gpu) in cpu.iter().zip(gpu.iter()) {
            match (on_cpu, on_gpu) {
                (FrameStep::PrepareCull { output: a }, FrameStep::PrepareCull { output: b }) => {
                    assert_eq!(a, b);
                    assert_eq!(a.records, objects);
                    outputs += 1;
                }
                (
                    FrameStep::Cull { view: a, strategy: CullStrategy::Cpu },
                    FrameStep::Cull { view: b, strategy: CullStrategy::Gpu },
                ) => assert_eq!(a, b),
                (a, b) => assert_eq!(a, b),
            }
        }
        assert_eq!(outputs, 3);
    }
}

#[test]
fn prepare_sizes_the_output_to_the_object_count() {
    assert_eq!(prepare(0, Viewpoint::Camera), CullOutput { view: Viewpoint::Camera, records: 0 });
    assert_eq!(
        prepare(250, Viewpoint::Shadow(3)),
        CullOutput { view: Viewpoint::Shadow(3), records: 250 }
    );
}

#[test]
fn the_strategy_follows_the_mode() {
    assert_eq!(strategy(RendererMode::CPUPowered), CullStrategy::Cpu);
    assert_eq!(strategy(RendererMode::GPUPowered), CullStrategy::Gpu);
    assert!(!RendererMode::CPUPowered.is_gpu_resident());
    assert!(RendererMode::GPUPowered.is_gpu_resident());
}

#[test]
fn culling_is_named_after_its_view() {
    assert_eq!(label(Viewpoint::Shadow(0)), "shadow pass");
    assert_eq!(label(Viewpoint::Shadow(11)), "shadow pass");
    assert_eq!(label(Viewpoint::Camera), "camera pass");
}

#[test]
fn the_spawn_steps_of_a_frame_are_its_schedule() {
    let passes = vec![RunRate::PerShadow, RunRate::Once, RunRate::Once, RunRate::PerShadow];
    for mode in [RendererMode::CPUPowered, RendererMode::GPUPowered] {
        let script = whole_frame(mode, 3, true, 3, 9, &passes);
        let spawned: Vec<RecordTask> = script
            .iter()
            .filter_map(|step| match step {
                FrameStep::Spawn { task } => Some(*task),
                _ => None,
            })
            .collect();
        assert_eq!(spawned, fan_out(3, &passes));
    }
}

#[test]
fn staged_options_are_in_force_before_the_camera_uniform_is_uploaded() {
    let applied = apply_batch::<Plain>(vec![
        Instruction::SetOptions { options: 1 },
        Instruction::SetCameraData { data: 2 },
    ]);
    let passes = vec![RunRate::Once];
    for mode in [RendererMode::CPUPowered, RendererMode::GPUPowered] {
        let script =
            whole_frame(mode, applied.mutations.len(), applied.new_options.is_some(), 1, 4, &passes);
        let camera_data = position(&script, FrameStep::Apply { mutation: 0 });
        let options = position(&script, FrameStep::UpdateOptions);
        let shadow_uniform = position(&script, FrameStep::UploadUniform { view: Viewpoint::Shadow(0) });
        let camera_uniform = position(&script, FrameStep::UploadUniform { view: Viewpoint::Camera });
        assert!(camera_data < options);
        assert!(options < shadow_uniform);
        assert!(options < camera_uniform);
        assert_eq!(script.iter().filter(|step| **step == FrameStep::UpdateOptions).count(), 1);
    }
}

#[test]
fn a_batch_without_options_updates_none() {
    let script = whole_frame(RendererMode::GPUPowered, 4, false, 2, 4, &vec![RunRate::PerShadow]);
    assert!(!script.contains(&FrameStep::UpdateOptions));
}

#[test]
fn every_mutation_is_made_before_the_pools_are_read() {
    let passes = vec![RunRate::PerShadow, RunRate::Once];
    let script = whole_frame(RendererMode::GPUPowered, 6, true, 2, 3, &passes);
    let last_apply = script
        .iter()
        .rposition(|step| matches!(step, FrameStep::Apply { .. }))
        .expect("the frame applies mutations");
    assert_eq!(last_apply, 6);
    for (at, step) in script.iter().enumerate() {
        match step {
            FrameStep::BeginEncoder | FrameStep::Apply { .. } => assert!(at <= last_apply),
            _ => assert!(at > last_apply),
        }
    }
}

#[test]
fn a_view_is_culled_before_its_passes_are_recorded() {
    let passes = vec![RunRate::PerShadow, RunRate::Once, RunRate::PerShadow];
    for mode in [RendererMode::CPUPowered, RendererMode::GPUPowered] {
        let script = whole_frame(mode, 0, false, 2, 3, &passes);
        for view in [Viewpoint::Shadow(0), Viewpoint::Shadow(1), Viewpoint::Camera] {
            let allocated = position(&script, FrameStep::PrepareCull { output: prepare(3, view) });
            let culled = position(&script, FrameStep::Cull { view, strategy: strategy(mode) });
            assert!(allocated < culled);
            for (at, step) in script.iter().enumerate() {
                if let FrameStep::Spawn { task } = step {
                    if task.view == view {
                        assert!(culled < at);
                    }
                }
            }
            assert!(culled < position(&script, FrameStep::FinishEncoder));
        }
    }
}

#[test]
fn the_output_is_acquired_between_the_lights_and_the_camera() {
    let passes = vec![RunRate::PerShadow, RunRate::Once];
    let script = whole_frame(RendererMode::CPUPowered, 1, false, 3, 2, &passes);
    let acquire = position(&script, FrameStep::Acquire);
    assert_eq!(script.iter().filter(|step| **step == FrameStep::Acquire).count(), 1);
    assert!(position(&script, spawn(Viewpoint::Shadow(2), 0)) < acquire);
    assert!(position(&script, FrameStep::Bundle { view: Viewpoint::Shadow(2) }) < acquire);
    assert!(acquire < position(&script, FrameStep::PrepareCull { output: prepare(2, Viewpoint::Camera) }));
}

#[test]
fn a_frame_is_presented_once_at_its_very_end() {
    let passes = vec![RunRate::PerShadow, RunRate::Once];
    for mode in [RendererMode::CPUPowered, RendererMode::GPUPowered] {
        let script = whole_frame(mode, 2, true, 2, 2, &passes);
        assert_eq!(script.last(), Some(&FrameStep::Present));
        assert_eq!(script.iter().filter(|step| **step == FrameStep::Present).count(), 1);
        assert_eq!(script.iter().filter(|step| **step == FrameStep::Submit).count(), 1);
        let submit = position(&script, FrameStep::Submit);
        assert_eq!(submit, script.len() - 3);
        assert!(position(&script, FrameStep::WaitIdle) < submit);
        assert!(position(&script, FrameStep::Drain) < submit);
        assert!(position(&script, spawn(Viewpoint::Camera, 1)) < submit);
    }
}

#[test]
fn the_frame_wide_bind_groups_of_each_mode() {
    assert_eq!(
        frame_groups(RendererMode::CPUPowered),
        vec![BindGroup::General, BindGroup::Shadow, BindGroup::Skybox]
    );
    assert_eq!(
        frame_groups(RendererMode::GPUPowered),
        vec![
            BindGroup::ObjectInput,
            BindGroup::General,
            BindGroup::Material,
            BindGroup::Shadow,
            BindGroup::Skybox,
        ]
    );
}

#[test]
fn the_bundle_of_each_mode() {
    assert_eq!(
        bundle(RendererMode::CPUPowered),
        vec![Slot::General, Slot::Object, Slot::Shadow, Slot::Skybox, Slot::Uniform]
    );
    assert_eq!(
        bundle(RendererMode::GPUPowered),
        vec![
            Slot::General,
            Slot::Object,
            Slot::Material,
            Slot::Textures2D,
            Slot::TexturesCube,
            Slot::Shadow,
            Slot::Skybox,
            Slot::Uniform,
        ]
    );
}

#[test]
fn the_skybox_is_the_background_or_the_null_view() {
    assert_eq!(skybox_source(Some(TextureHandle(6))), SkyboxSource::Texture(TextureHandle(6)));
    assert_eq!(skybox_source(None), SkyboxSource::Null);
}

#[test]
fn the_lights_come_first_and_the_acquisition_after_them() {
    let passes = vec![RunRate::PerShadow];
    let mut expected = Vec::new();
    expected.extend(view_head(Viewpoint::Shadow(0), 8, CullStrategy::Gpu));
    expected.push(spawn(Viewpoint::Shadow(0), 0));
    expected.push(FrameStep::Acquire);
    assert_eq!(lights_script(RendererMode::GPUPowered, 1, 8, &passes), expected);
    assert_eq!(lights_script(RendererMode::GPUPowered, 0, 8, &passes), vec![FrameStep::Acquire]);
}

#[test]
fn a_frame_that_acquired_its_output_records_the_camera_and_presents() {
    let passes = vec![RunRate::Once, RunRate::PerShadow, RunRate::Once];
    let mut expected = view_head(Viewpoint::Camera, 8, CullStrategy::Cpu);
    expected.push(spawn(Viewpoint::Camera, 0));
    expected.push(spawn(Viewpoint::Camera, 2));
    expected.extend(vec![
        FrameStep::FinishEncoder,
        FrameStep::Drain,
        FrameStep::WaitIdle,
        FrameStep::Submit,
        FrameStep::Reclaim,
        FrameStep::Present,
    ]);
    assert_eq!(finish_script(RendererMode::CPUPowered, true, 8, &passes), expected);
}

#[test]
fn a_frame_that_could_not_acquire_its_output_submits_without_presenting() {
    let passes = vec![RunRate::Once, RunRate::PerShadow];
    for mode in [RendererMode::CPUPowered, RendererMode::GPUPowered] {
        assert_eq!(
            finish_script(mode, false, 8, &passes),
            vec![
                FrameStep::FinishEncoder,
                FrameStep::Drain,
                FrameStep::WaitIdle,
                FrameStep::Submit,
                FrameStep::Reclaim,
            ]
        );
    }
}

#[test]
fn a_frame_is_suspended_at_four_kinds_of_step_only() {
    let passes = vec![RunRate::Once, RunRate::PerShadow];
    let on_cpu = whole_frame(RendererMode::CPUPowered, 2, true, 2, 3, &passes);
    let suspending: Vec<FrameStep> = on_cpu.iter().copied().filter(|step| step.suspends()).collect();
    assert_eq!(
        suspending,
        vec![
            FrameStep::Cull { view: Viewpoint::Shadow(0), strategy: CullStrategy::Cpu },
            FrameStep::Cull { view: Viewpoint::Shadow(1), strategy: CullStrategy::Cpu },
            FrameStep::Acquire,
            FrameStep::Cull { view: Viewpoint::Camera, strategy: CullStrategy::Cpu },
            FrameStep::Drain,
        ]
    );

    let on_gpu = whole_frame(RendererMode::GPUPowered, 2, true, 1, 3, &passes);
    let suspending: Vec<FrameStep> = on_gpu.iter().copied().filter(|step| step.suspends()).collect();
    assert_eq!(suspending, vec![FrameStep::AwaitRecompile, FrameStep::Acquire, FrameStep::Drain]);
}

#[test]
fn recordings_are_waited_for_and_recalls_are_not() {
    assert_eq!(spawn(Viewpoint::Camera, 0).priority(), Some(Priority::RenderRecord));
    assert_eq!(spawn(Viewpoint::Shadow(3), 1).priority(), Some(Priority::RenderRecord));
    assert_eq!(FrameStep::Reclaim.priority(), Some(Priority::BufferRecall));
    assert_eq!(FrameStep::Submit.priority(), None);
    assert_eq!(FrameStep::Apply { mutation: 0 }.priority(), None);
}
