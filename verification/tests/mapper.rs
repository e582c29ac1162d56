use url_mapper::error::MapperError;
use url_mapper::mapper::BaseMapper;
use url_mapper::memory::{Entry, MemoryMapper, MemoryStore};

fn entry(key: u64, value: u32) -> Entry<u32> {
    Entry { key, value }
}

#[test]
fn empty_store_lists_nothing() {
    let mapper = MemoryMapper {};
    let mut store: MemoryStore<u32> = MemoryStore::new();
    assert_eq!(store.len(), 0);
    assert_eq!(mapper.read_data_list(&mut store), Ok(vec![]));
}

#[test]
fn read_of_absent_key_is_not_found() {
    let mapper = MemoryMapper {};
    let mut store: MemoryStore<u32> = MemoryStore::new();
    assert_eq!(mapper.read_data_by_id(&mut store, 7), Err(MapperError::NotFound));
    assert_eq!(mapper.create_data(&mut store, entry(1, 10)), Ok(entry(1, 10)));
    assert_eq!(mapper.read_data_by_id(&mut store, 7), Err(MapperError::NotFound));
    assert_eq!(mapper.read_data_by_id(&mut store, 0), Err(MapperError::NotFound));
    assert_eq!(store.len(), 1);
}

#[test]
fn create_then_read_round_trips() {
    let mapper = MemoryMapper {};
    let mut store: MemoryStore<u32> = MemoryStore::new();
    let created = mapper.create_data(&mut store, entry(42, 4242)).unwrap();
    assert_eq!(created, entry(42, 4242));
    assert_eq!(mapper.read_data_by_id(&mut store, created.key), Ok(created));
}

#[test]
fn create_on_taken_key_conflicts_and_keeps_the_first() {
    let mapper = MemoryMapper {};
    let mut store: MemoryStore<u32> = MemoryStore::new();
    assert_eq!(mapper.create_data(&mut store, entry(1, 10)), Ok(entry(1, 10)));
    assert_eq!(mapper.create_data(&mut store, entry(1, 99)), Err(MapperError::Conflict));
    assert_eq!(mapper.read_data_by_id(&mut store, 1), Ok(entry(1, 10)));
    assert_eq!(store.len(), 1);
}

#[test]
fn update_of_absent_key_is_not_found_and_changes_nothing() {
    let mapper = MemoryMapper {};
    let mut store: MemoryStore<u32> = MemoryStore::new();
    mapper.create_data(&mut store, entry(1, 10)).unwrap();
    mapper.create_data(&mut store, entry(2, 20)).unwrap();
    assert_eq!(mapper.update_data(&mut store, entry(3, 30)), Err(MapperError::NotFound));
    assert_eq!(mapper.read_data_list(&mut store), Ok(vec![entry(1, 10), entry(2, 20)]));
}

#[test]
fn update_replaces_in_place() {
    let mapper = MemoryMapper {};
    let mut store: MemoryStore<u32> = MemoryStore::new();
    mapper.create_data(&mut store, entry(1, 10)).unwrap();
    mapper.create_data(&mut store, entry(2, 20)).unwrap();
    mapper.create_data(&mut store, entry(3, 30)).unwrap();
    assert_eq!(mapper.update_data(&mut store, entry(2, 21)), Ok(entry(2, 21)));
    assert_eq!(
        mapper.read_data_list(&mut store),
        Ok(vec![entry(1, 10), entry(2, 21), entry(3, 30)])
    );
}

#[test]
fn delete_returns_last_state_and_second_delete_is_not_found() {
    let mapper = MemoryMapper {};
    let mut store: MemoryStore<u32> = MemoryStore::new();
    mapper.create_data(&mut store, entry(1, 10)).unwrap();
    mapper.create_data(&mut store, entry(2, 20)).unwrap();
    mapper.update_data(&mut store, entry(2, 22)).unwrap();
    assert_eq!(mapper.delete_data_by_id(&mut store, 2), Ok(entry(2, 22)));
    assert_eq!(mapper.delete_data_by_id(&mut store, 2), Err(MapperError::NotFound));
    assert_eq!(mapper.read_data_by_id(&mut store, 2), Err(MapperError::NotFound));
    assert_eq!(mapper.read_data_list(&mut store), Ok(vec![entry(1, 10)]));
}

#[test]
fn delete_keeps_the_order_of_the_others() {
    let mapper = MemoryMapper {};
    let mut store: MemoryStore<u32> = MemoryStore::new();
    for key in [5u64, 3, 9, 1] {
        mapper.create_data(&mut store, entry(key, key as u32 * 2)).unwrap();
    }
    assert_eq!(mapper.delete_data_by_id(&mut store, 3), Ok(entry(3, 6)));
    assert_eq!(
        mapper.read_data_list(&mut store),
        Ok(vec![entry(5, 10), entry(9, 18), entry(1, 2)])
    );
    assert_eq!(store.position(9), Some(1));
    assert_eq!(store.position(3), None);
    assert_eq!(store.snapshot(), vec![entry(5, 10), entry(9, 18), entry(1, 2)]);
}

#[test]
fn deleted_key_can_be_created_again() {
    let mapper = MemoryMapper {};
    let mut store: MemoryStore<u32> = MemoryStore::new();
    mapper.create_data(&mut store, entry(1, 10)).unwrap();
    mapper.delete_data_by_id(&mut store, 1).unwrap();
    assert_eq!(mapper.create_data(&mut store, entry(1, 11)), Ok(entry(1, 11)));
    assert_eq!(mapper.read_data_by_id(&mut store, 1), Ok(entry(1, 11)));
}
