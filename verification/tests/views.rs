use byteslike::byteslike::{BytesCow, PyAsciiBytesLike, PyBytesLike, PyRwBytesLike};
use byteslike::object::{Class, Heap, Obj, PyArray, PyErr};
use byteslike::singletons::{init, PyNone, PyNotImplemented};

fn sample_array() -> PyArray {
    // two 16-bit elements, little-endian bytes [0x02, 0x01, 0x04, 0x03]
    PyArray { width: 2, elems: vec![0x0102, 0x0304] }
}

#[test]
fn dispatch_accepts_all_byte_representations() {
    let mut heap = Heap::new();
    let b = heap.allocate(Obj::Bytes(vec![1, 2]));
    let ba = heap.allocate(Obj::ByteArray(vec![3]));
    let ar = heap.allocate(Obj::Array(sample_array()));
    assert!(matches!(PyBytesLike::try_from_object(&heap, b), Ok(PyBytesLike::Bytes(_))));
    assert!(matches!(PyBytesLike::try_from_object(&heap, ba), Ok(PyBytesLike::Bytearray(_))));
    assert!(matches!(PyBytesLike::try_from_object(&heap, ar), Ok(PyBytesLike::Array(_))));
}

#[test]
fn dispatch_rejects_non_buffer_with_class() {
    let mut heap = Heap::new();
    let s = heap.allocate(Obj::Str("hi".to_string()));
    let n = heap.allocate(Obj::NoneVal(PyNone));
    assert_eq!(
        PyBytesLike::try_from_object(&heap, s),
        Err(PyErr::BytesLikeRequired(Class::Str))
    );
    assert_eq!(
        PyBytesLike::try_from_object(&heap, n),
        Err(PyErr::BytesLikeRequired(Class::NoneType))
    );
}

#[test]
fn rw_dispatch_excludes_immutable_bytes() {
    let mut heap = Heap::new();
    let b = heap.allocate(Obj::Bytes(vec![1, 2]));
    let ba = heap.allocate(Obj::ByteArray(vec![3]));
    assert_eq!(
        PyRwBytesLike::try_from_object(&heap, b),
        Err(PyErr::BufferRequired(Class::Bytes))
    );
    assert!(matches!(PyRwBytesLike::try_from_object(&heap, ba), Ok(PyRwBytesLike::Bytearray(_))));
}

#[test]
fn length_matches_scoped_read_for_each_representation() {
    let mut heap = Heap::new();
    let handles = [
        heap.allocate(Obj::Bytes(vec![1, 2, 3])),
        heap.allocate(Obj::ByteArray(vec![4, 5])),
        heap.allocate(Obj::Array(sample_array())),
    ];
    for h in handles {
        let v = PyBytesLike::try_from_object(&heap, h).unwrap();
        let observed = v.with_ref(&heap, |bs: &[u8]| bs.len());
        assert_eq!(v.len(&heap), observed);
        assert_eq!(v.is_empty(&heap), observed == 0);
    }
}

#[test]
fn array_length_is_count_times_width() {
    let mut heap = Heap::new();
    let h = heap.allocate(Obj::Array(sample_array()));
    let v = PyBytesLike::try_from_object(&heap, h).unwrap();
    assert_eq!(v.len(&heap), 4);
    assert_eq!(
        v.with_ref(&heap, |bs: &[u8]| bs.to_vec()),
        vec![0x02, 0x01, 0x04, 0x03]
    );
}

#[test]
fn to_cow_borrows_only_immutable_bytes() {
    let mut heap = Heap::new();
    let b = heap.allocate(Obj::Bytes(vec![9, 8]));
    let ba = heap.allocate(Obj::ByteArray(vec![7]));
    let vb = PyBytesLike::try_from_object(&heap, b).unwrap();
    let vba = PyBytesLike::try_from_object(&heap, ba).unwrap();
    assert!(matches!(vb.to_cow(&heap), BytesCow::Borrowed(_)));
    assert!(matches!(vba.to_cow(&heap), BytesCow::Owned(_)));
    match vb.to_cow(&heap) {
        BytesCow::Borrowed(s) => assert_eq!(s, &[9, 8]),
        BytesCow::Owned(_) => unreachable!(),
    }
}

#[test]
fn scoped_write_replaces_bytearray_content() {
    let mut heap = Heap::new();
    let h = heap.allocate(Obj::ByteArray(b"abc".to_vec()));
    let w = PyRwBytesLike::try_from_object(&heap, h).unwrap();
    let old_first = w.with_ref(&mut heap, |mut v: Vec<u8>| {
        let first = v[0];
        for b in v.iter_mut() {
            *b = b.to_ascii_uppercase();
        }
        (v, first)
    });
    assert_eq!(old_first, b'a');
    // another view of the same handle sees the write
    let r = PyBytesLike::try_from_object(&heap, h).unwrap();
    assert_eq!(r.with_ref(&heap, |bs: &[u8]| bs.to_vec()), b"ABC".to_vec());
}

#[test]
fn scoped_write_reinterprets_array_elements() {
    let mut heap = Heap::new();
    let h = heap.allocate(Obj::Array(sample_array()));
    let w = PyRwBytesLike::try_from_object(&heap, h).unwrap();
    assert_eq!(w.len(&heap), 4);
    w.with_ref(&mut heap, |mut v: Vec<u8>| {
        v[0] = 0xff;
        (v, ())
    });
    match &heap.objects[h.idx] {
        Obj::Array(a) => assert_eq!(a.elems, vec![0x01ff, 0x0304]),
        _ => unreachable!(),
    }
}

#[test]
fn scoped_access_does_not_retain_storage() {
    // the scoped body may only pass data out by value: the heap stays whole
    // and observable after every scoped call
    let mut heap = Heap::new();
    let h = heap.allocate(Obj::ByteArray(vec![1, 2, 3]));
    let r = PyBytesLike::try_from_object(&heap, h).unwrap();
    let copied = r.with_ref(&heap, |bs: &[u8]| bs.to_vec());
    assert_eq!(copied, vec![1, 2, 3]);
    let w = PyRwBytesLike::try_from_object(&heap, h).unwrap();
    w.with_ref(&mut heap, |v: Vec<u8>| {
        let out = vec![9; v.len()];
        (out, ())
    });
    assert_eq!(r.with_ref(&heap, |bs: &[u8]| bs.to_vec()), vec![9, 9, 9]);
    assert_eq!(copied, vec![1, 2, 3]);
}

#[test]
fn ascii_view_accepts_ascii_text() {
    let mut heap = Heap::new();
    let h = heap.allocate(Obj::Str("68656c6c6f".to_string()));
    let v = PyAsciiBytesLike::try_from_object(&heap, h).unwrap();
    assert_eq!(v.len(&heap), 10);
    assert!(!v.is_empty(&heap));
    assert_eq!(v.with_ref(&heap, |bs: &[u8]| bs.to_vec()), b"68656c6c6f".to_vec());
}

#[test]
fn ascii_view_rejects_non_ascii_text_distinctly() {
    let mut heap = Heap::new();
    let h = heap.allocate(Obj::Str("caf\u{e9}".to_string()));
    assert_eq!(
        PyAsciiBytesLike::try_from_object(&heap, h),
        Err(PyErr::NonAsciiString)
    );
}

#[test]
fn ascii_view_delegates_to_buffer_dispatch() {
    let mut heap = Heap::new();
    let b = heap.allocate(Obj::ByteArray(vec![1]));
    let n = heap.allocate(Obj::NoneVal(PyNone));
    assert!(matches!(
        PyAsciiBytesLike::try_from_object(&heap, b),
        Ok(PyAsciiBytesLike::Buffer(_))
    ));
    assert_eq!(
        PyAsciiBytesLike::try_from_object(&heap, n),
        Err(PyErr::BytesLikeRequired(Class::NoneType))
    );
}

#[test]
fn array_bytes_round_trip() {
    let a = sample_array();
    let bytes = a.to_bytes();
    assert_eq!(bytes, vec![0x02, 0x01, 0x04, 0x03]);
    let back = PyArray::from_bytes(2, &bytes);
    assert_eq!(back.width, 2);
    assert_eq!(back.elems, vec![0x0102, 0x0304]);
}

#[test]
fn array_wide_elements() {
    let a = PyArray { width: 8, elems: vec![0x0102_0304_0506_0708] };
    let bytes = a.to_bytes();
    assert_eq!(bytes, vec![0x08, 0x07, 0x06, 0x05, 0x04, 0x03, 0x02, 0x01]);
    let back = PyArray::from_bytes(8, &bytes);
    assert_eq!(back.elems, vec![0x0102_0304_0506_0708]);
}

#[test]
fn singletons_register_and_report() {
    let mut heap = Heap::new();
    let ctx = init(&mut heap);
    assert_eq!(heap.objects.len(), 2);
    assert_eq!(PyNone::tp_new(&ctx), ctx.none_handle);
    assert_eq!(heap.class_of(ctx.none_handle), Class::NoneType);
    assert_eq!(heap.class_of(ctx.not_implemented_handle), Class::NotImplementedType);
    assert_eq!(PyNone.repr(), "None");
    assert!(!PyNone.bool());
    assert_eq!(PyNotImplemented.repr(), "NotImplemented");
}
