use generational_box::{
    AccessError, Arena, BackendKind, GenerationalBox, Owner, TypeTag, Value,
};

fn setup(kind: BackendKind) -> (Arena, Owner) {
    (Arena::new(kind), Owner::new(kind))
}

#[test]
fn insert_then_read_returns_value() {
    for kind in [BackendKind::Unsync, BackendKind::Sync] {
        let (mut arena, mut owner) = setup(kind);
        let h = owner.insert(&mut arena, Value::U32(0));
        assert_eq!(h.try_read(&arena), Ok(&Value::U32(0)));
        assert_eq!(h.tag, TypeTag::U32);
        assert_eq!(h.kind, kind);
        assert_eq!(h.index, 0);
        assert_eq!(h.generation, 0);
        assert!(h.is_valid(&arena));
        assert_eq!(owner.len(), 1);
    }
}

#[test]
fn set_then_read_sees_new_value() {
    let (mut arena, mut owner) = setup(BackendKind::Sync);
    let h = owner.insert(&mut arena, Value::U32(0));
    h.set(&mut arena, Value::U32(1));
    assert_eq!(*h.read(&arena), Value::U32(1));
}

#[test]
fn close_invalidates_handles() {
    let (mut arena, mut owner) = setup(BackendKind::Unsync);
    let a = owner.insert(&mut arena, Value::Text("a".to_string()));
    let b = owner.insert(&mut arena, Value::Bool(true));
    owner.close(&mut arena);
    assert_eq!(owner.len(), 0);
    assert_eq!(a.try_read(&arena), Err(AccessError::SlotFreed));
    assert_eq!(b.try_read(&arena), Err(AccessError::SlotFreed));
    assert!(!a.is_valid(&arena));
    assert_eq!(arena.generation(a.index), 1);
    assert_eq!(arena.free_len(), 2);
}

#[test]
fn close_twice_is_a_no_op() {
    let (mut arena, mut owner) = setup(BackendKind::Unsync);
    let _ = owner.insert(&mut arena, Value::U64(5));
    owner.close(&mut arena);
    let gen_after_first = arena.generation(0);
    owner.close(&mut arena);
    assert_eq!(arena.generation(0), gen_after_first);
    assert_eq!(arena.free_len(), 1);
}

#[test]
fn recycled_slot_rejects_old_handle() {
    let mut arena = Arena::new(BackendKind::Unsync);
    let mut o1 = Owner::new(BackendKind::Unsync);
    let h1 = o1.insert(&mut arena, Value::U32(42));
    o1.close(&mut arena);
    let mut o2 = Owner::new(BackendKind::Unsync);
    let h2 = o2.insert(&mut arena, Value::Text("x".to_string()));
    assert_eq!(h2.index, h1.index);
    assert_eq!(h2.generation, h1.generation + 1);
    assert_eq!(h1.try_read(&arena), Err(AccessError::GenerationMismatch));
    assert_eq!(h2.try_read(&arena), Ok(&Value::Text("x".to_string())));
    // A handle rebuilt by hand with the old generation is still refused.
    let forged = GenerationalBox { index: h1.index, generation: h1.generation, tag: TypeTag::Text, kind: BackendKind::Unsync };
    assert_eq!(forged.try_read(&arena), Err(AccessError::GenerationMismatch));
    // The old handle cannot write over the new value either.
    assert_eq!(h1.try_write(&mut arena, Value::U32(7)), Err(AccessError::GenerationMismatch));
    assert_eq!(h2.try_read(&arena), Ok(&Value::Text("x".to_string())));
}

#[test]
fn write_is_visible_through_copies() {
    let (mut arena, mut owner) = setup(BackendKind::Unsync);
    let h = owner.insert(&mut arena, Value::I64(-3));
    let copy = h;
    assert_eq!(h.try_write(&mut arena, Value::I64(9)), Ok(()));
    assert_eq!(copy.try_read(&arena), Ok(&Value::I64(9)));
    assert_eq!(copy, h);
}

#[test]
fn wrong_kind_is_refused() {
    let (mut arena, mut owner) = setup(BackendKind::Unsync);
    let h = owner.insert(&mut arena, Value::U32(1));
    let as_text = GenerationalBox { tag: TypeTag::Text, ..h };
    assert_eq!(as_text.try_read(&arena), Err(AccessError::TypeMismatch));
    assert_eq!(h.try_write(&mut arena, Value::Bytes(vec![1, 2])), Err(AccessError::TypeMismatch));
    assert_eq!(h.try_read(&arena), Ok(&Value::U32(1)));
}

#[test]
fn never_allocated_slot_reads_as_freed() {
    let arena = Arena::new(BackendKind::Sync);
    let h = GenerationalBox { index: 3, generation: 0, tag: TypeTag::Unit, kind: BackendKind::Sync };
    assert_eq!(h.try_read(&arena), Err(AccessError::SlotFreed));
}

#[test]
fn free_list_reuses_most_recent_slot() {
    let (mut arena, mut owner) = setup(BackendKind::Unsync);
    let a = owner.insert(&mut arena, Value::Unit);
    let b = owner.insert(&mut arena, Value::Unit);
    assert_eq!((a.index, b.index), (0, 1));
    owner.close(&mut arena);
    // Slots were released in order 0 then 1, so 1 is reused first.
    let mut o2 = Owner::new(BackendKind::Unsync);
    let c = o2.insert(&mut arena, Value::Unit);
    let d = o2.insert(&mut arena, Value::Unit);
    let e = o2.insert(&mut arena, Value::Unit);
    assert_eq!((c.index, d.index, e.index), (1, 0, 2));
    assert_eq!((c.generation, d.generation, e.generation), (1, 1, 0));
    assert_eq!(arena.len(), 3);
}

#[test]
fn release_only_matching_generation() {
    let (mut arena, mut owner) = setup(BackendKind::Unsync);
    let h = owner.insert(&mut arena, Value::U64(8));
    assert!(!arena.release(h.index, h.generation + 1));
    assert!(h.is_valid(&arena));
    assert!(arena.release(h.index, h.generation));
    assert!(!arena.release(h.index, h.generation));
    assert_eq!(arena.generation(h.index), 1);
}

#[test]
fn exclusive_borrow_conflicts() {
    let (mut arena, mut owner) = setup(BackendKind::Unsync);
    let h = owner.insert(&mut arena, Value::U32(3));
    let token = h.borrow_mut(&mut arena).unwrap();
    assert_eq!(h.try_read(&arena), Err(AccessError::BorrowConflict));
    assert!(matches!(h.borrow(&mut arena), Err(AccessError::BorrowConflict)));
    assert!(matches!(h.borrow_mut(&mut arena), Err(AccessError::BorrowConflict)));
    assert_eq!(h.try_write(&mut arena, Value::U32(4)), Err(AccessError::BorrowConflict));
    arena.end_borrow(token);
    assert_eq!(h.try_read(&arena), Ok(&Value::U32(3)));
}

#[test]
fn shared_borrows_stack() {
    let (mut arena, mut owner) = setup(BackendKind::Sync);
    let h = owner.insert(&mut arena, Value::Bool(false));
    let t1 = h.borrow(&mut arena).unwrap();
    let t2 = h.borrow(&mut arena).unwrap();
    assert_eq!(h.try_read(&arena), Ok(&Value::Bool(false)));
    assert!(matches!(h.borrow_mut(&mut arena), Err(AccessError::BorrowConflict)));
    assert_eq!(h.try_write(&mut arena, Value::Bool(true)), Err(AccessError::BorrowConflict));
    arena.end_borrow(t1);
    assert!(matches!(h.borrow_mut(&mut arena), Err(AccessError::BorrowConflict)));
    arena.end_borrow(t2);
    assert_eq!(h.try_write(&mut arena, Value::Bool(true)), Ok(()));
    assert_eq!(h.try_read(&arena), Ok(&Value::Bool(true)));
}

#[test]
fn stale_borrow_fails_and_stale_token_is_ignored() {
    let (mut arena, mut owner) = setup(BackendKind::Unsync);
    let h = owner.insert(&mut arena, Value::U32(1));
    let token = h.borrow(&mut arena).unwrap();
    owner.close(&mut arena);
    assert!(matches!(h.borrow(&mut arena), Err(AccessError::SlotFreed)));
    let mut o2 = Owner::new(BackendKind::Unsync);
    let h2 = o2.insert(&mut arena, Value::U32(2));
    arena.end_borrow(token);
    let t2 = h2.borrow_mut(&mut arena).unwrap();
    assert_eq!(t2.generation, 1);
    arena.end_borrow(t2);
    assert_eq!(h2.try_read(&arena), Ok(&Value::U32(2)));
}

#[test]
fn tags_follow_values() {
    assert_eq!(Value::Unit.tag(), TypeTag::Unit);
    assert_eq!(Value::Bool(true).tag(), TypeTag::Bool);
    assert_eq!(Value::U32(1).tag(), TypeTag::U32);
    assert_eq!(Value::U64(1).tag(), TypeTag::U64);
    assert_eq!(Value::I64(-1).tag(), TypeTag::I64);
    assert_eq!(Value::Text(String::new()).tag(), TypeTag::Text);
    assert_eq!(Value::Bytes(Vec::new()).tag(), TypeTag::Bytes);
}

#[test]
fn arena_and_owner_keep_their_kind() {
    let (arena, owner) = setup(BackendKind::Sync);
    assert_eq!(arena.kind(), BackendKind::Sync);
    assert_eq!(owner.kind(), BackendKind::Sync);
    assert_eq!(arena.len(), 0);
    assert_eq!(arena.free_len(), 0);
}
