use bulut::error::VmError;
use bulut::function::Function;
use bulut::object::{Object, ObjectKind};
use bulut::object_info::{ObjectInfo, TypedObjectHandle};
use bulut::object_pool::ObjectPool;
use bulut::opcodes::Instruction;
use bulut::static_root::StaticRoot;
use bulut::value::Value;

fn pool_with_string() -> (ObjectPool, usize) {
    let mut pool = ObjectPool::new();
    let id = pool.allocate(Object::Str(String::from("disassemble")));
    (pool, id)
}

#[test]
fn new_info_is_unpinned() {
    let info = ObjectInfo::new(Object::Str(String::from("a")));
    assert!(!info.has_native_refs());
    assert_eq!(info.native_refs(), 0);
    assert_eq!(info.as_object().kind(), ObjectKind::Str);
}

#[test]
fn gc_notified_unpinned_info_finalizes() {
    let mut info = ObjectInfo::new(Object::Str(String::from("gone")));
    info.gc_notify();
    match info.finalize() {
        Object::Str(s) => assert_eq!(s, "gone"),
        _ => panic!("wrong object"),
    }
}

#[test]
fn allocate_hands_out_successive_identities() {
    let mut pool = ObjectPool::new();
    let a = pool.allocate(Object::Str(String::from("a")));
    let b = pool.allocate(Object::Root(StaticRoot::new()));
    assert_eq!(a, 0);
    assert_eq!(b, 1);
    assert_eq!(pool.len(), 2);
    assert_eq!(pool.get(b).kind(), ObjectKind::Root);
}

#[test]
fn refcount_after_acquires_and_releases() {
    let (mut pool, id) = pool_with_string();
    let h1 = pool.handle(id);
    let h2 = pool.handle(id);
    let h3 = pool.handle(id);
    pool.release(h2);
    assert_eq!(pool.info(id).native_refs(), 2);
    pool.release(h1);
    pool.release(h3);
    assert_eq!(pool.info(id).native_refs(), 0);
}

#[test]
fn pinned_object_is_not_reclaimed() {
    let (mut pool, id) = pool_with_string();
    let h = pool.handle(id);
    assert!(!pool.reclaim(id));
    assert!(pool.is_live_id(id));
    pool.release(h);
    assert!(pool.reclaim(id));
    assert!(!pool.is_live_id(id));
    assert!(!pool.reclaim(id));
}

#[test]
fn rooted_object_is_not_reclaimed() {
    let (mut pool, id) = pool_with_string();
    let root = pool.allocate(Object::Root(StaticRoot::new()));
    assert!(pool.append_root_child(root, id));
    assert!(pool.is_reachable(id));
    assert!(!pool.reclaim(id));
    assert!(pool.is_live_id(id));
    assert_eq!(pool.get(root).get_children(), vec![id]);
}

#[test]
fn reclaiming_the_root_releases_its_children() {
    let (mut pool, id) = pool_with_string();
    let root = pool.allocate(Object::Root(StaticRoot::new()));
    assert!(pool.append_root_child(root, id));
    assert!(pool.reclaim(root));
    assert!(!pool.is_reachable(id));
    assert!(pool.reclaim(id));
}

#[test]
fn objects_reached_through_a_root_are_kept() {
    let mut pool = ObjectPool::new();
    let s = pool.allocate(Object::Str(String::from("k")));
    let f = pool.allocate(Object::Function(Function::from_instructions(
        vec![Instruction::LoadConst(1, s), Instruction::Ret(1)],
        0,
    )));
    let rec = pool.allocate(Object::Record(vec![(s, Value::Object(f))]));
    let root = pool.allocate(Object::Root(StaticRoot::new()));
    let loose = pool.allocate(Object::Str(String::from("loose")));
    assert!(pool.append_root_child(root, rec));
    assert_eq!(pool.reachable_marks(), vec![true, true, true, false, false]);
    assert!(!pool.reclaim(s));
    assert!(!pool.reclaim(f));
    assert!(!pool.reclaim(rec));
    assert!(pool.reclaim(loose));
    assert!(pool.reclaim(root));
    assert!(pool.reclaim(rec));
    assert!(pool.reclaim(f));
    assert!(pool.reclaim(s));
}

#[test]
fn objects_referred_to_by_a_pinned_object_are_kept() {
    let mut pool = ObjectPool::new();
    let s = pool.allocate(Object::Str(String::from("k")));
    let f = pool.allocate(Object::Function(Function::from_instructions(
        vec![Instruction::LoadConst(1, s), Instruction::Ret(1)],
        0,
    )));
    let h = pool.handle(f);
    assert_eq!(pool.reachable_marks(), vec![true, false]);
    assert!(pool.is_reachable(s));
    assert!(!pool.reclaim(s));
    assert!(!pool.reclaim(f));
    pool.release(h);
    assert!(!pool.is_reachable(s));
    assert!(pool.reclaim(s));
    assert!(pool.reclaim(f));
}

#[test]
fn typed_handle_reads_its_function() {
    let mut pool = ObjectPool::new();
    let f = pool.allocate(Object::Function(Function::from_instructions(vec![Instruction::Ret(0)], 3)));
    let h = pool.handle(f);
    let t = match TypedObjectHandle::downcast_from(&pool, h, ObjectKind::Function) {
        Ok(t) => t,
        Err(_) => panic!("expected a function"),
    };
    assert_eq!(t.function(&pool).arity, 3);
    assert_eq!(t.function(&pool).code, vec![Instruction::Ret(0)]);
    pool.release(t.into_handle());
    assert_eq!(pool.info(f).native_refs(), 0);
}

#[test]
fn cycles_without_a_root_are_reclaimed() {
    let mut pool = ObjectPool::new();
    let a = pool.allocate(Object::Record(vec![(1, Value::Int(0))]));
    let b = pool.allocate(Object::Record(vec![(0, Value::Int(0))]));
    assert_eq!(pool.reachable_marks(), vec![false, false]);
    assert!(pool.reclaim(a));
    assert!(pool.reclaim(b));
}

#[test]
fn append_to_non_root_fails() {
    let (mut pool, id) = pool_with_string();
    assert!(!pool.append_root_child(id, id));
    assert!(!pool.append_root_child(9, id));
    assert!(!pool.is_reachable(id));
}

#[test]
fn static_root_keeps_children_in_order() {
    let mut root = StaticRoot::new();
    root.append_child(3);
    root.append_child(1);
    root.append_child(3);
    assert_eq!(root.get_children(), vec![3, 1, 3]);
    assert!(StaticRoot::default().get_children().is_empty());
}

#[test]
fn downcast_matches_kind() {
    let (mut pool, id) = pool_with_string();
    let h = pool.handle(id);
    let t = match TypedObjectHandle::downcast_from(&pool, h, ObjectKind::Str) {
        Ok(t) => t,
        Err(_) => panic!("expected a string"),
    };
    assert_eq!(t.id(), id);
    assert_eq!(t.kind(), ObjectKind::Str);
    assert_eq!(pool.info(id).native_refs(), 1);
    pool.release(t.into_handle());
    assert_eq!(pool.info(id).native_refs(), 0);
}

#[test]
fn failed_downcast_keeps_the_pin() {
    let (mut pool, id) = pool_with_string();
    let h = pool.handle(id);
    let h = match TypedObjectHandle::downcast_from(&pool, h, ObjectKind::Function) {
        Ok(_) => panic!("a string is no function"),
        Err(h) => h,
    };
    assert_eq!(h.id(), id);
    assert_eq!(pool.info(id).native_refs(), 1);
    pool.release(h);
    assert_eq!(pool.info(id).native_refs(), 0);
}

#[test]
fn scoped_handle_released_on_success_and_error() {
    let mut pool = ObjectPool::new();
    let f = pool.allocate(Object::Function(Function::from_instructions(vec![Instruction::Ret(1)], 2)));
    let s = pool.allocate(Object::Str(String::from("x")));
    assert_eq!(pool.function_arity(f), Ok(2));
    assert_eq!(pool.info(f).native_refs(), 0);
    assert_eq!(pool.function_arity(s), Err(VmError::InvalidCallable));
    assert_eq!(pool.info(s).native_refs(), 0);
    assert_eq!(pool.function_arity(7), Err(VmError::InvalidCallable));
}

#[test]
fn function_children_are_its_constants() {
    let f = Function::from_instructions(
        vec![
            Instruction::LoadConst(1, 5),
            Instruction::LoadInt(2, 7),
            Instruction::LoadConst(3, 2),
            Instruction::Ret(1),
        ],
        0,
    );
    assert_eq!(f.get_children(), vec![5, 2]);
    assert_eq!(Object::Function(f).get_children(), vec![5, 2]);
}

#[test]
fn record_children_and_members() {
    let rec = Object::Record(vec![(4, Value::Int(1)), (6, Value::Object(9)), (4, Value::Int(2))]);
    assert_eq!(rec.get_children(), vec![4, 6, 9, 4]);
    assert_eq!(rec.member(4), Some(Value::Int(1)));
    assert_eq!(rec.member(6), Some(Value::Object(9)));
    assert_eq!(rec.member(5), None);
    assert_eq!(Object::Str(String::from("k")).member(4), None);
}
