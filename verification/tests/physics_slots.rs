use voxel_pipeline::physics::PhysicsData;
use voxel_pipeline::slot_table::SlotTable;
use voxel_pipeline::world::VoxelWorldDescriptor;

fn sorted_slots(data: &PhysicsData, entities: &[u64]) -> Vec<usize> {
    let mut slots: Vec<usize> = entities.iter().map(|e| data.slot_of(*e).unwrap()).collect();
    slots.sort();
    slots
}

#[test]
fn new_table_is_empty() {
    let data = PhysicsData::new();
    assert_eq!(data.dispatch_size(), 0);
    assert_eq!(data.buffer_length(), 0);
    assert_eq!(data.slot_of(1), None);
    assert_eq!(data.entity_at(0), None);
}

#[test]
fn ten_entities_then_seven() {
    let world = VoxelWorldDescriptor::new(64, 4.0f32).unwrap();
    assert_eq!(world.texture_size(), 64);
    let mut data = PhysicsData::new();
    let entities: Vec<u64> = (1..=10).map(|i| 1_000 + i).collect();
    let report = data.rebuild(&entities, 1_000_000);
    assert_eq!(data.dispatch_size(), 10);
    assert!(report.excluded.is_empty());
    assert_eq!(sorted_slots(&data, &entities), (0..10).collect::<Vec<usize>>());

    let remaining: Vec<u64> = entities
        .iter()
        .copied()
        .filter(|e| *e != 1_002 && *e != 1_005 && *e != 1_009)
        .collect();
    let report = data.rebuild(&remaining, 1_000_000);
    assert_eq!(data.dispatch_size(), 7);
    assert!(report.excluded.is_empty());
    assert!(!report.mirror_rebound);
    assert_eq!(sorted_slots(&data, &remaining), (0..7).collect::<Vec<usize>>());
    assert_eq!(data.slot_of(1_002), None);
    assert_eq!(data.slot_of(1_005), None);
    assert_eq!(data.slot_of(1_009), None);
}

#[test]
fn slots_follow_order_of_appearance() {
    let mut data = PhysicsData::new();
    data.rebuild(&vec![30, 10, 20], 8);
    assert_eq!(data.slot_of(30), Some(0));
    assert_eq!(data.slot_of(10), Some(1));
    assert_eq!(data.slot_of(20), Some(2));
    assert_eq!(data.entity_at(0), Some(30));
    assert_eq!(data.entity_at(1), Some(10));
    assert_eq!(data.entity_at(2), Some(20));
    assert_eq!(data.entity_at(3), None);
}

#[test]
fn slots_are_a_dense_permutation() {
    let mut data = PhysicsData::new();
    let entities: Vec<u64> = vec![7, 3, 99, 42, 0, u64::MAX, 15];
    data.rebuild(&entities, 100);
    let n = data.dispatch_size() as usize;
    assert_eq!(n, entities.len());
    for slot in 0..n {
        let entity = data.entity_at(slot).unwrap();
        assert!(entities.contains(&entity));
        assert_eq!(data.slot_of(entity), Some(slot));
    }
    assert_eq!(sorted_slots(&data, &entities), (0..n).collect::<Vec<usize>>());
}

#[test]
fn removing_any_one_entity_leaves_no_gap() {
    let entities: Vec<u64> = vec![11, 22, 33, 44, 55];
    for removed in 0..entities.len() {
        let mut data = PhysicsData::new();
        data.rebuild(&entities, 64);
        let mut rest = entities.clone();
        let gone = rest.remove(removed);
        data.rebuild(&rest, 64);
        assert_eq!(data.dispatch_size(), 4);
        assert_eq!(data.slot_of(gone), None);
        for (slot, entity) in rest.iter().enumerate() {
            assert_eq!(data.slot_of(*entity), Some(slot));
        }
        assert_eq!(data.entity_at(4), None);
    }
}

#[test]
fn an_entity_listed_twice_owns_one_slot() {
    let mut data = PhysicsData::new();
    let report = data.rebuild(&vec![5, 6, 5, 7, 6], 10);
    assert_eq!(data.dispatch_size(), 3);
    assert_eq!(data.slot_of(5), Some(0));
    assert_eq!(data.slot_of(6), Some(1));
    assert_eq!(data.slot_of(7), Some(2));
    assert!(report.excluded.is_empty());
}

#[test]
fn entities_beyond_capacity_are_excluded() {
    let mut data = PhysicsData::new();
    let report = data.rebuild(&vec![1, 2, 3, 4, 5], 3);
    assert_eq!(data.dispatch_size(), 3);
    assert_eq!(data.buffer_length(), 3);
    assert_eq!(report.excluded, vec![4, 5]);
    assert_eq!(data.slot_of(3), Some(2));
    assert_eq!(data.slot_of(4), None);
    assert_eq!(data.slot_of(5), None);

    let report = data.rebuild(&vec![2, 3, 4, 5], 3);
    assert_eq!(data.dispatch_size(), 3);
    assert_eq!(report.excluded, vec![5]);
    assert_eq!(data.slot_of(4), Some(2));
}

#[test]
fn no_capacity_excludes_everyone() {
    let mut data = PhysicsData::new();
    let report = data.rebuild(&vec![8, 9, 8], 0);
    assert_eq!(data.dispatch_size(), 0);
    assert_eq!(report.excluded, vec![8, 9]);
    assert!(!report.mirror_rebound);
}

#[test]
fn mirror_is_rebound_only_when_capacity_changes() {
    let mut data = PhysicsData::new();
    assert!(data.rebuild(&vec![1], 100).mirror_rebound);
    assert!(!data.rebuild(&vec![1, 2], 100).mirror_rebound);
    assert!(!data.rebuild(&vec![], 100).mirror_rebound);
    assert!(data.rebuild(&vec![1], 200).mirror_rebound);
    assert_eq!(data.buffer_length(), 200);
}

#[test]
fn slot_table_assigns_and_pops() {
    let mut table = SlotTable::new();
    assert_eq!(table.len(), 0);
    assert_eq!(table.pop(), None);
    assert_eq!(table.assign(40), 0);
    assert_eq!(table.assign(41), 1);
    assert_eq!(table.assign(40), 0);
    assert_eq!(table.len(), 2);
    assert_eq!(table.slot_of(41), Some(1));
    assert_eq!(table.slot_of(42), None);
    assert_eq!(table.entity_at(1), Some(41));
    assert_eq!(table.entity_at(2), None);
    assert_eq!(table.pop(), Some(41));
    assert_eq!(table.slot_of(41), None);
    assert_eq!(table.len(), 1);
    assert_eq!(table.assign(41), 1);
}

#[test]
fn slot_table_collects_first_appearances() {
    let table = SlotTable::collect(&vec![9, 8, 9, 7, 8]);
    assert_eq!(table.len(), 3);
    assert_eq!(table.entity_at(0), Some(9));
    assert_eq!(table.entity_at(1), Some(8));
    assert_eq!(table.entity_at(2), Some(7));
}
