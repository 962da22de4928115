use vm_core::chunk::{Chunk, Zeroed};

/// A tagged machine word: zero is the null pointer, an odd word carries an
/// integer in its upper bits.
#[derive(Clone, Copy, PartialEq, Debug)]
struct ObjectPointer {
    raw: usize,
}

impl ObjectPointer {
    fn integer(value: i64) -> ObjectPointer {
        ObjectPointer { raw: ((value << 1) | 1) as usize }
    }

    fn is_null(&self) -> bool {
        self.raw == 0
    }
}

impl Zeroed for ObjectPointer {
    fn zero() -> ObjectPointer {
        ObjectPointer { raw: 0 }
    }

    fn zeroed() -> ObjectPointer {
        ObjectPointer { raw: 0 }
    }
}

#[test]
fn test_len() {
    let chunk = Chunk::<usize>::new(4);

    assert_eq!(chunk.len(), 4);
}

#[test]
fn test_reset() {
    let mut chunk = Chunk::<ObjectPointer>::new(1);

    *chunk.index_mut(0) = ObjectPointer::integer(5);
    chunk.reset();

    assert!(chunk[0].is_null());
}

#[test]
fn test_indexing_with_integer() {
    let mut chunk = Chunk::new(1);

    assert_eq!(chunk[0], 0);

    *chunk.index_mut(0) = 10;

    assert_eq!(chunk[0], 10);
}

#[test]
fn test_indexing_with_object_pointer() {
    let mut chunk = Chunk::<ObjectPointer>::new(2);

    assert!(chunk[0].is_null());

    *chunk.index_mut(0) = ObjectPointer::integer(5);

    assert!(chunk[0] == ObjectPointer::integer(5));
    assert!(chunk[1].is_null());
}
