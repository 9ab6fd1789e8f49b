use cells_renderer::error::RenderError;
use cells_renderer::resources::{Handle, HandleTable};

#[test]
fn entries_are_found_by_their_handles() {
    let mut table: HandleTable<String> = HandleTable::new();
    let a = table.add_entry("albedo".to_string()).unwrap();
    let b = table.add_entry("depth".to_string()).unwrap();
    assert_eq!((a.index, a.generation), (0, 0));
    assert_eq!((b.index, b.generation), (1, 0));
    assert_eq!(table.slot_count(), 2);
    assert_eq!(table.get(&a).unwrap(), "albedo");
    assert_eq!(table.get(&b).unwrap(), "depth");
    assert!(table.contains(&a));
}

#[test]
fn unknown_handle_is_refused() {
    let mut table: HandleTable<u32> = HandleTable::new();
    let a = table.add_entry(7).unwrap();
    let beyond: Handle<u32> = Handle::from_parts(1, 0);
    let later: Handle<u32> = Handle::from_parts(a.index, 1);
    assert_eq!(table.get(&beyond), Err(RenderError::InvalidHandle));
    assert_eq!(table.get(&later), Err(RenderError::InvalidHandle));
    assert!(!table.contains(&beyond));
    assert_eq!(table.remove(&later), Err(RenderError::InvalidHandle));
    assert_eq!(table.get(&a), Ok(&7));
}

#[test]
fn removed_handle_is_stale_even_after_the_slot_is_reused() {
    let mut table: HandleTable<u32> = HandleTable::new();
    let a = table.add_entry(10).unwrap();
    let b = table.add_entry(20).unwrap();
    assert_eq!(table.remove(&a), Ok(10));
    assert_eq!(table.get(&a), Err(RenderError::InvalidHandle));
    assert_eq!(table.remove(&a), Err(RenderError::InvalidHandle));
    let c = table.add_entry(30).unwrap();
    assert_eq!((c.index, c.generation), (0, 1));
    assert_eq!(table.slot_count(), 2);
    assert_eq!(table.get(&a), Err(RenderError::InvalidHandle));
    assert_eq!(table.get(&c), Ok(&30));
    assert_eq!(table.get(&b), Ok(&20));
}

#[test]
fn most_recently_freed_slot_is_taken_first() {
    let mut table: HandleTable<u8> = HandleTable::new();
    let handles: Vec<Handle<u8>> = (0..4u8).map(|v| table.add_entry(v).unwrap()).collect();
    table.remove(&handles[1]).unwrap();
    table.remove(&handles[3]).unwrap();
    let first = table.add_entry(40).unwrap();
    let second = table.add_entry(50).unwrap();
    let third = table.add_entry(60).unwrap();
    assert_eq!((first.index, first.generation), (3, 1));
    assert_eq!((second.index, second.generation), (1, 1));
    assert_eq!((third.index, third.generation), (4, 0));
}

#[test]
fn handles_copy_without_their_entry_type_being_copyable() {
    let mut table: HandleTable<Vec<u8>> = HandleTable::new();
    let a = table.add_entry(vec![1, 2, 3]).unwrap();
    let copy = a;
    let cloned = a.clone();
    assert_eq!(table.get(&copy).unwrap(), &vec![1, 2, 3]);
    assert_eq!((cloned.index, cloned.generation), (a.index, a.generation));
}
