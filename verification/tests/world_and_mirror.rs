use voxel_pipeline::mirror::MirrorChannel;
use voxel_pipeline::world::{VoxelWorldDescriptor, WorldError};

#[test]
fn world_capacity_is_the_cube_of_its_size() {
    let world = VoxelWorldDescriptor::new(64, 4.0f32).unwrap();
    assert_eq!(world.texture_size(), 64);
    assert_eq!(world.capacity(), 262_144);
    assert_eq!(*world.voxels_per_meter(), 4.0);
    let empty = VoxelWorldDescriptor::new(0, ()).unwrap();
    assert_eq!(empty.capacity(), 0);
}

#[test]
fn world_too_large_is_refused() {
    // 2^21 cubed is 2^63 and fits; 2^22 cubed is 2^66 and does not
    let fits = VoxelWorldDescriptor::new(1 << 21, ()).unwrap();
    assert_eq!(fits.capacity(), 1u64 << 63);
    assert!(matches!(VoxelWorldDescriptor::new(1 << 22, ()), Err(WorldError::TooLarge)));
    assert!(matches!(VoxelWorldDescriptor::new(u32::MAX, ()), Err(WorldError::TooLarge)));
    // the largest edge whose cube fits in 64 bits
    let edge = 2_642_245;
    assert_eq!(
        VoxelWorldDescriptor::new(edge, ()).unwrap().capacity(),
        (edge as u64) * (edge as u64) * (edge as u64)
    );
    assert!(VoxelWorldDescriptor::new(edge + 1, ()).is_err());
}

#[test]
fn loading_tells_whether_the_size_changed() {
    let mut world = VoxelWorldDescriptor::new(64, 4u8).unwrap();
    assert_eq!(world.load(64), Ok(false));
    assert_eq!(world.load(128), Ok(true));
    assert_eq!(world.texture_size(), 128);
    assert_eq!(world.capacity(), 2_097_152);
    assert_eq!(world.load(u32::MAX), Err(WorldError::TooLarge));
    assert_eq!(world.texture_size(), 128);
    assert_eq!(world.capacity(), 2_097_152);
    assert_eq!(*world.voxels_per_meter(), 4);
}

#[test]
fn mirror_is_read_one_frame_late() {
    let mut mirror: MirrorChannel<Vec<u32>> = MirrorChannel::new();
    assert_eq!(mirror.current_frame(), 0);
    assert_eq!(mirror.read(), None);

    let issued = mirror.schedule_copy();
    assert_eq!(issued, 0);
    assert!(mirror.complete(issued, vec![1, 2, 3]));
    // never in the frame that wrote it
    assert_eq!(mirror.read(), None);

    mirror.begin_frame();
    assert_eq!(mirror.current_frame(), 1);
    assert_eq!(mirror.read(), Some(&vec![1, 2, 3]));

    // nor two frames later
    mirror.begin_frame();
    assert_eq!(mirror.read(), None);
}

#[test]
fn mirror_copy_may_land_in_the_next_frame() {
    let mut mirror: MirrorChannel<u8> = MirrorChannel::new();
    let issued = mirror.schedule_copy();
    mirror.begin_frame();
    assert_eq!(mirror.read(), None);
    assert!(mirror.complete(issued, 9));
    assert_eq!(mirror.read(), Some(&9));
    mirror.begin_frame();
    assert_eq!(mirror.read(), None);
}

#[test]
fn mirror_drops_copies_that_are_not_under_way() {
    let mut mirror: MirrorChannel<u8> = MirrorChannel::new();
    assert!(!mirror.complete(0, 1));
    let first = mirror.schedule_copy();
    mirror.begin_frame();
    let second = mirror.schedule_copy();
    assert_eq!((first, second), (0, 1));
    // the older copy was superseded
    assert!(!mirror.complete(first, 1));
    assert!(mirror.complete(second, 2));
    assert!(!mirror.complete(second, 3));
    assert_eq!(mirror.read(), None);
    mirror.begin_frame();
    assert_eq!(mirror.read(), Some(&2));
}

#[test]
fn mirror_forgets_a_copy_that_never_landed() {
    let mut mirror: MirrorChannel<u8> = MirrorChannel::new();
    let issued = mirror.schedule_copy();
    mirror.begin_frame();
    mirror.begin_frame();
    assert!(!mirror.complete(issued, 1));
    assert_eq!(mirror.read(), None);
}
