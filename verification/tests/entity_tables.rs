use voxel_pipeline::entity_table::EntityTable;
use voxel_pipeline::slot_table::SlotTable;

#[test]
fn table_stores_one_value_per_entity() {
    let mut table: EntityTable<String> = EntityTable::new();
    assert_eq!(table.len(), 0);
    assert_eq!(table.get(1), None);
    table.insert(1, "one".to_string());
    table.insert(2, "two".to_string());
    assert_eq!(table.len(), 2);
    assert_eq!(table.get(1), Some(&"one".to_string()));
    assert_eq!(table.get(2), Some(&"two".to_string()));
    table.insert(1, "uno".to_string());
    assert_eq!(table.len(), 2);
    assert_eq!(table.get(1), Some(&"uno".to_string()));
    assert_eq!(table.get(3), None);
}

#[test]
fn table_pops_the_last_entity() {
    let mut table: EntityTable<u8> = EntityTable::new();
    assert_eq!(table.pop(), None);
    table.insert(10, 1);
    table.insert(20, 2);
    assert_eq!(table.pop(), Some((20, 2)));
    assert_eq!(table.get(20), None);
    assert_eq!(table.get(10), Some(&1));
    assert_eq!(table.pop(), Some((10, 1)));
    assert_eq!(table.pop(), None);
}

#[test]
fn retain_drops_what_is_not_kept() {
    let mut table: EntityTable<u32> = EntityTable::new();
    for e in 1..=6u64 {
        table.insert(e, (e * 10) as u32);
    }
    let keep = SlotTable::collect(&vec![2, 4, 6, 8]);
    let mut dropped = table.retain(&keep);
    dropped.sort();
    assert_eq!(dropped, vec![1, 3, 5]);
    assert_eq!(table.len(), 3);
    assert_eq!(table.get(2), Some(&20));
    assert_eq!(table.get(4), Some(&40));
    assert_eq!(table.get(6), Some(&60));
    assert_eq!(table.get(1), None);
    assert_eq!(table.get(8), None);
}
