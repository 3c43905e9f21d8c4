use hexo::byte_buffer::ByteBuffer;
use hexo::id::HexoId;
use hexo::scope::{CompilationScope, ConstantBinding};

fn binding(name: &str, bytes: Vec<u8>) -> ConstantBinding {
    ConstantBinding { name: name.to_string(), byte_buffer: ByteBuffer::from_vec(bytes) }
}

#[test]
fn binding_into_an_unknown_scope_creates_it() {
    let mut scope = CompilationScope::new("s.hexo");
    let id = HexoId { batch_id: 7, sequence_id: 42 };
    scope.bind_local_constant(id, binding("A", vec![1, 2]));
    let found = scope.get_local_constant(id, &"A".to_string()).unwrap();
    assert_eq!(found.byte_buffer.to_vec(), vec![1, 2]);
    scope.bind_local_constant(id, binding("A", vec![3]));
    let again = scope.get_local_constant(id, &"A".to_string()).unwrap();
    assert_eq!(again.byte_buffer.to_vec(), vec![3]);
}

#[test]
fn lookup_falls_back_to_parents_in_order() {
    let mut scope = CompilationScope::new("s.hexo");
    let child = scope.new_scope();
    let first = scope.new_scope();
    let second = scope.new_scope();
    assert_ne!(child, first);
    assert_ne!(first, second);
    scope.bind_local_constant(first, binding("X", vec![1]));
    scope.bind_local_constant(second, binding("X", vec![2]));
    scope.bind_local_constant(second, binding("Y", vec![3]));
    scope.bind_parents(child, vec![first, second]);
    let name_x = "X".to_string();
    let name_y = "Y".to_string();
    let name_z = "Z".to_string();
    assert_eq!(scope.get_local_constant(child, &name_x).unwrap().byte_buffer.to_vec(), vec![1]);
    assert_eq!(scope.get_local_constant(child, &name_y).unwrap().byte_buffer.to_vec(), vec![3]);
    assert!(scope.get_local_constant(child, &name_z).is_none());
}

#[test]
fn cyclic_parents_end_the_search() {
    let mut scope = CompilationScope::new("s.hexo");
    let a = scope.new_scope();
    let b = scope.new_scope();
    scope.bind_parents(a, vec![b]);
    scope.bind_parents(b, vec![a]);
    assert!(scope.get_local_constant(a, &"none".to_string()).is_none());
}
