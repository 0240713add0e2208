use voxel_pipeline::commands::{record, Command, DispatchSizes};
use voxel_pipeline::context::World;
use voxel_pipeline::frame::{PipelineStatus, ScheduledGraph, ViewResources};
use voxel_pipeline::compute::MAX_TYPE_BUFFER_DATA;
use voxel_pipeline::settings::{PassKind, RenderGraphSettings};
use voxel_pipeline::world::WorldError;

const READY: PipelineStatus = PipelineStatus {
    clear: true,
    automata: true,
    animation: true,
    rebuild: true,
    physics: true,
    trace: true,
};

fn view() -> ViewResources<u8> {
    ViewResources { target: true, uniforms: true, normal: Some(1), position: Some(2) }
}

#[test]
fn world_of_64_with_ten_bodies_then_seven() {
    let mut world = World::new(64, 4.0f32).unwrap();
    assert_eq!(world.texture_size(), 64);
    assert_eq!(world.physics_data().dispatch_size(), 0);

    let spawned: Vec<u64> = (0..10).map(|i| (1u64 << 32) | i).collect();
    let report = world.extract(&spawned, 0);
    assert!(report.excluded.is_empty());
    assert_eq!(world.physics_data().dispatch_size(), 10);
    let mut slots: Vec<usize> =
        spawned.iter().map(|e| world.physics_data().slot_of(*e).unwrap()).collect();
    slots.sort();
    slots.dedup();
    assert_eq!(slots, (0..10).collect::<Vec<usize>>());
    assert_eq!(world.dispatch_sizes().physics, 10);

    let left: Vec<u64> = spawned.iter().copied().filter(|e| e % 4 != 1).collect();
    assert_eq!(left.len(), 7);
    world.extract(&left, 0);
    assert_eq!(world.physics_data().dispatch_size(), 7);
    let mut slots: Vec<usize> =
        left.iter().map(|e| world.physics_data().slot_of(*e).unwrap()).collect();
    slots.sort();
    assert_eq!(slots, (0..7).collect::<Vec<usize>>());
    for gone in spawned.iter().filter(|e| *e % 4 == 1) {
        assert_eq!(world.physics_data().slot_of(*gone), None);
    }
}

#[test]
fn world_too_large_cannot_be_made() {
    assert!(matches!(World::new(u32::MAX, ()), Err(WorldError::TooLarge)));
    let mut world = World::new(8, ()).unwrap();
    assert_eq!(world.load(u32::MAX), Err(WorldError::TooLarge));
    assert_eq!(world.texture_size(), 8);
    assert_eq!(world.load(8), Ok(false));
    assert_eq!(world.load(16), Ok(true));
    assert_eq!(world.dispatch_sizes().world, 16);
}

#[test]
fn first_extract_binds_the_mirror_once() {
    let mut world = World::new(8, ()).unwrap();
    assert!(world.extract(&vec![1, 2], 3).mirror_rebound);
    assert!(!world.extract(&vec![1], 3).mirror_rebound);
    assert_eq!(
        world.dispatch_sizes(),
        DispatchSizes {
            world: 8,
            animation: 3,
            physics: 1,
            physics_elements: MAX_TYPE_BUFFER_DATA as u64,
        }
    );
}

#[test]
fn a_frame_records_both_graphs() {
    let mut world = World::new(64, ()).unwrap();
    world.extract(&vec![5, 6, 7], 2);
    let global: Vec<Command<u8>> = world.record_global(&READY);
    assert_eq!(
        global,
        vec![
            Command::Dispatch { pass: PassKind::Clear, size: 64 },
            Command::Dispatch { pass: PassKind::Automata, size: 64 },
            Command::Dispatch { pass: PassKind::Animation, size: 2 },
            Command::Host { pass: PassKind::CameraDriver },
        ]
    );
    let per_view = world.record_view(&READY, &view());
    assert_eq!(
        per_view,
        vec![
            Command::Dispatch { pass: PassKind::Rebuild, size: 64 },
            Command::Dispatch { pass: PassKind::Physics, size: 3 },
            Command::CopyToMirror { elements: 1_000_000 },
            Command::Draw { normal: 1, position: 2 },
            Command::Host { pass: PassKind::Tonemapping },
            Command::Host { pass: PassKind::Fxaa },
            Command::Host { pass: PassKind::Ui },
            Command::Host { pass: PassKind::Upscaling },
        ]
    );
    assert_eq!(
        record(&ScheduledGraph::view(), &world.current_settings(), &READY, &view(), &world.dispatch_sizes()),
        per_view
    );
}

#[test]
fn read_back_arrives_one_frame_after_the_copy() {
    let mut world = World::new(8, ()).unwrap();
    assert_eq!(world.frame(), 0);
    world.extract(&vec![1], 0);
    assert_eq!(world.frame(), 1);
    world.record_view(&READY, &view());
    // the copy of frame 1 is under way
    assert!(!world.complete_copy(0, vec![9]));
    assert!(world.complete_copy(1, vec![10, 20]));
    assert_eq!(world.read_back(), None);
    world.extract(&vec![1], 0);
    assert_eq!(world.read_back(), Some(&vec![10, 20]));
    world.extract(&vec![1], 0);
    assert_eq!(world.read_back(), None);
}

#[test]
fn physics_off_leaves_buffers_and_mirror_alone() {
    let mut world = World::new(8, ()).unwrap();
    world.set_settings(RenderGraphSettings { physics: false, ..RenderGraphSettings::default() });
    assert!(!world.current_settings().physics);
    for frame in 1..=3u64 {
        world.extract(&vec![1, 2], 0);
        let recorded = world.record_view(&READY, &view());
        assert_eq!(
            recorded,
            vec![
                Command::Dispatch { pass: PassKind::Rebuild, size: 8 },
                Command::Draw { normal: 1, position: 2 },
                Command::Host { pass: PassKind::Tonemapping },
                Command::Host { pass: PassKind::Fxaa },
                Command::Host { pass: PassKind::Ui },
                Command::Host { pass: PassKind::Upscaling },
            ]
        );
        // no copy was scheduled, so none can land
        assert!(!world.complete_copy(frame, vec![1]));
        assert_eq!(world.read_back(), None);
    }
}

#[test]
fn a_pipeline_that_is_not_ready_schedules_no_copy() {
    let mut world = World::new(8, ()).unwrap();
    world.extract(&vec![1], 0);
    let pipelines = PipelineStatus { physics: false, ..READY };
    let recorded = world.record_view(&pipelines, &view());
    assert!(!recorded.iter().any(|c| matches!(c, Command::CopyToMirror { .. })));
    assert!(!world.complete_copy(1, vec![1]));
}
