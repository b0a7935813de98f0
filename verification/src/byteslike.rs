use vstd::prelude::*;

use vstd::arithmetic::div_mod::lemma_fundamental_div_mod_converse;
use vstd::pervasive::unreached;
use vstd::slice::{slice_index_get, slice_to_vec};

use crate::object::{Handle, Heap, Obj, PyArray, PyErr};

verus! {

/// Read capability over one of the three byte-carrying representations: an
/// immutable byte sequence, a mutable byte sequence, or a typed numeric array
/// viewed as raw bytes.
#[derive(Debug, PartialEq, Eq)]
pub enum PyBytesLike {
    Bytes(Handle),
    Bytearray(Handle),
    Array(Handle),
}

/// Write capability over the two mutable representations; the immutable byte
/// sequence is excluded by construction.
#[derive(Debug, PartialEq, Eq)]
pub enum PyRwBytesLike {
    Bytearray(Handle),
    Array(Handle),
}

/// Read capability that also accepts a textual value, provided every one of
/// its characters is ASCII (hence representable in a single byte).
#[derive(Debug, PartialEq, Eq)]
pub enum PyAsciiBytesLike {
    Str(Handle),
    Buffer(PyBytesLike),
}

/// The two-case result of copy-on-write extraction: a borrowed slice when the
/// representation can expose one without a copy, else an owned copy.
pub enum BytesCow<'a> {
    Borrowed(&'a [u8]),
    Owned(Vec<u8>),
}

impl<'a> BytesCow<'a> {
    /// The byte sequence held, whichever case carries it.
    pub open spec fn data(self) -> Seq<u8> {
        match self {
            BytesCow::Borrowed(s) => s@,
            BytesCow::Owned(v) => v@,
        }
    }
}

impl PyBytesLike {
    pub open spec fn handle(self) -> Handle {
        match self {
            PyBytesLike::Bytes(h) => h,
            PyBytesLike::Bytearray(h) => h,
            PyBytesLike::Array(h) => h,
        }
    }

    /// The view is well formed for the heap: its handle is live and refers to
    /// a value of the representation the variant stands for.
    pub open spec fn wf(self, heap: Heap) -> bool {
        &&& heap.valid_handle(self.handle())
        &&& match self {
            PyBytesLike::Bytes(h) => heap.obj_at(h) is Bytes,
            PyBytesLike::Bytearray(h) => heap.obj_at(h) is ByteArray,
            PyBytesLike::Array(h) => heap.obj_at(h) is Array && heap.obj_at(h)->Array_0.wf(),
        }
    }

    /// The byte sequence this view reads.
    pub open spec fn bytes(self, heap: Heap) -> Seq<u8> {
        match self {
            PyBytesLike::Bytes(h) => heap.obj_at(h)->Bytes_0@,
            PyBytesLike::Bytearray(h) => heap.obj_at(h)->ByteArray_0@,
            PyBytesLike::Array(h) => heap.obj_at(h)->Array_0.byte_view(),
        }
    }

    /// Whether the handle's representation is admissible for this view.
    pub open spec fn admissible(heap: Heap, obj: Handle) -> bool {
        ||| heap.obj_at(obj) is Bytes
        ||| heap.obj_at(obj) is ByteArray
        ||| heap.obj_at(obj) is Array
    }

    /// Dispatch: rebind the handle to its concrete byte-carrying
    /// representation, or report the offending representation's class.
    pub fn try_from_object(heap: &Heap, obj: Handle) -> (r: Result<PyBytesLike, PyErr>)
        requires
            heap.valid_handle(obj),
            heap.obj_at(obj).wf(),
        ensures
            match r {
                Ok(v) => Self::admissible(*heap, obj) && v.handle() == obj && v.wf(*heap),
                Err(e) => !Self::admissible(*heap, obj) && e == PyErr::BytesLikeRequired(
                    heap.obj_at(obj).class_spec(),
                ),
            },
    {
        let o = slice_index_get(heap.objects.as_slice(), obj.idx);
        match o {
            Obj::Bytes(_) => Ok(PyBytesLike::Bytes(obj)),
            Obj::ByteArray(_) => Ok(PyBytesLike::Bytearray(obj)),
            Obj::Array(_) => Ok(PyBytesLike::Array(obj)),
            _ => Err(PyErr::BytesLikeRequired(o.class())),
        }
    }

    /// The number of bytes the view reads: the stored byte count, or for the
    /// typed array its element count times element width.
    pub fn len(&self, heap: &Heap) -> (n: usize)
        requires
            self.wf(*heap),
        ensures
            n == self.bytes(*heap).len(),
    {
        match self {
            PyBytesLike::Bytes(h) => {
                match slice_index_get(heap.objects.as_slice(), h.idx) {
                    Obj::Bytes(v) => v.len(),
                    _ => unreached(),
                }
            },
            PyBytesLike::Bytearray(h) => {
                match slice_index_get(heap.objects.as_slice(), h.idx) {
                    Obj::ByteArray(v) => v.len(),
                    _ => unreached(),
                }
            },
            PyBytesLike::Array(h) => {
                match slice_index_get(heap.objects.as_slice(), h.idx) {
                    Obj::Array(a) => a.byte_len(),
                    _ => unreached(),
                }
            },
        }
    }

    pub fn is_empty(&self, heap: &Heap) -> (b: bool)
        requires
            self.wf(*heap),
        ensures
            b == (self.bytes(*heap).len() == 0),
    {
        self.len(heap) == 0
    }

    /// Copy-on-write extraction: the immutable representation lends its bytes
    /// without a copy; the mutable representations hand out an owned copy, so
    /// that nothing borrowed outlives their locking discipline.
    pub fn to_cow<'a>(&self, heap: &'a Heap) -> (r: BytesCow<'a>)
        requires
            self.wf(*heap),
        ensures
            r.data() == self.bytes(*heap),
            r is Borrowed <==> self is Bytes,
    {
        match self {
            PyBytesLike::Bytes(h) => {
                match slice_index_get(heap.objects.as_slice(), h.idx) {
                    Obj::Bytes(v) => BytesCow::Borrowed(v.as_slice()),
                    _ => unreached(),
                }
            },
            PyBytesLike::Bytearray(h) => {
                match slice_index_get(heap.objects.as_slice(), h.idx) {
                    Obj::ByteArray(v) => BytesCow::Owned(slice_to_vec(v.as_slice())),
                    _ => unreached(),
                }
            },
            PyBytesLike::Array(h) => {
                match slice_index_get(heap.objects.as_slice(), h.idx) {
                    Obj::Array(a) => BytesCow::Owned(a.to_bytes()),
                    _ => unreached(),
                }
            },
        }
    }

    /// Scoped read access: the body is handed a byte slice holding exactly
    /// the view's bytes, valid only for the duration of the call, and the
    /// body's result is returned.
    pub fn with_ref<R, F: FnOnce(&[u8]) -> R>(&self, heap: &Heap, f: F) -> (r: R)
        requires
            self.wf(*heap),
            forall|bs: &[u8]| bs@ == self.bytes(*heap) ==> call_requires(f, (bs,)),
        ensures
            exists|bs: &[u8]| bs@ == self.bytes(*heap) && call_ensures(f, (bs,), r),
    {
        match self {
            PyBytesLike::Bytes(h) => {
                match slice_index_get(heap.objects.as_slice(), h.idx) {
                    Obj::Bytes(v) => f(v.as_slice()),
                    _ => unreached(),
                }
            },
            PyBytesLike::Bytearray(h) => {
                match slice_index_get(heap.objects.as_slice(), h.idx) {
                    Obj::ByteArray(v) => f(v.as_slice()),
                    _ => unreached(),
                }
            },
            PyBytesLike::Array(h) => {
                match slice_index_get(heap.objects.as_slice(), h.idx) {
                    Obj::Array(a) => {
                        let tmp = a.to_bytes();
                        f(tmp.as_slice())
                    },
                    _ => unreached(),
                }
            },
        }
    }
}

impl PyRwBytesLike {
    pub open spec fn handle(self) -> Handle {
        match self {
            PyRwBytesLike::Bytearray(h) => h,
            PyRwBytesLike::Array(h) => h,
        }
    }

    pub open spec fn wf(self, heap: Heap) -> bool {
        &&& heap.valid_handle(self.handle())
        &&& match self {
            PyRwBytesLike::Bytearray(h) => heap.obj_at(h) is ByteArray,
            PyRwBytesLike::Array(h) => heap.obj_at(h) is Array && heap.obj_at(h)->Array_0.wf(),
        }
    }

    /// The byte sequence this view reads and writes.
    pub open spec fn bytes(self, heap: Heap) -> Seq<u8> {
        match self {
            PyRwBytesLike::Bytearray(h) => heap.obj_at(h)->ByteArray_0@,
            PyRwBytesLike::Array(h) => heap.obj_at(h)->Array_0.byte_view(),
        }
    }

    /// Whether the handle's representation is admissible for the write view.
    pub open spec fn admissible(heap: Heap, obj: Handle) -> bool {
        ||| heap.obj_at(obj) is ByteArray
        ||| heap.obj_at(obj) is Array
    }

    /// Dispatch restricted to the mutable representations; the immutable byte
    /// sequence is rejected with the distinct "buffer object" wording.
    pub fn try_from_object(heap: &Heap, obj: Handle) -> (r: Result<PyRwBytesLike, PyErr>)
        requires
            heap.valid_handle(obj),
            heap.obj_at(obj).wf(),
        ensures
            match r {
                Ok(v) => Self::admissible(*heap, obj) && v.handle() == obj && v.wf(*heap),
                Err(e) => !Self::admissible(*heap, obj) && e == PyErr::BufferRequired(
                    heap.obj_at(obj).class_spec(),
                ),
            },
    {
        let o = slice_index_get(heap.objects.as_slice(), obj.idx);
        match o {
            Obj::ByteArray(_) => Ok(PyRwBytesLike::Bytearray(obj)),
            Obj::Array(_) => Ok(PyRwBytesLike::Array(obj)),
            _ => Err(PyErr::BufferRequired(o.class())),
        }
    }

    pub fn len(&self, heap: &Heap) -> (n: usize)
        requires
            self.wf(*heap),
        ensures
            n == self.bytes(*heap).len(),
    {
        match self {
            PyRwBytesLike::Bytearray(h) => {
                match slice_index_get(heap.objects.as_slice(), h.idx) {
                    Obj::ByteArray(v) => v.len(),
                    _ => unreached(),
                }
            },
            PyRwBytesLike::Array(h) => {
                match slice_index_get(heap.objects.as_slice(), h.idx) {
                    Obj::Array(a) => a.byte_len(),
                    _ => unreached(),
                }
            },
        }
    }

    pub fn is_empty(&self, heap: &Heap) -> (b: bool)
        requires
            self.wf(*heap),
        ensures
            b == (self.bytes(*heap).len() == 0),
    {
        self.len(heap) == 0
    }

    /// Scoped write access: the body receives the view's bytes, must return a
    /// byte sequence of the same length, and that sequence becomes the new
    /// content of the underlying storage.  Exclusivity of the write is given
    /// by holding the heap mutably for exactly the duration of the call; no
    /// other access to any object can overlap it.  Every other heap slot is
    /// untouched, and the target keeps its representation.
    pub fn with_ref<R, F: FnOnce(Vec<u8>) -> (Vec<u8>, R)>(&self, heap: &mut Heap, f: F) -> (r: R)
        requires
            self.wf(*old(heap)),
            forall|v: Vec<u8>| v@ == self.bytes(*old(heap)) ==> call_requires(f, (v,)),
            forall|v: Vec<u8>, out: (Vec<u8>, R)|
                v@ == self.bytes(*old(heap)) && #[trigger] call_ensures(f, (v,), out)
                    ==> out.0@.len() == v@.len(),
        ensures
            self.wf(*final(heap)),
            final(heap).objects@.len() == old(heap).objects@.len(),
            forall|j: int|
                0 <= j < old(heap).objects@.len() && j != self.handle().idx
                    ==> final(heap).objects@[j] == old(heap).objects@[j],
            final(heap).obj_at(self.handle()).class_spec() == old(heap).obj_at(
                self.handle(),
            ).class_spec(),
            exists|v: Vec<u8>, out: (Vec<u8>, R)|
                v@ == self.bytes(*old(heap)) && #[trigger] call_ensures(f, (v,), out) && r == out.1
                    && self.bytes(*final(heap)) == out.0@,
    {
        match self {
            PyRwBytesLike::Bytearray(h) => {
                let obj = heap.objects.remove(h.idx);
                match obj {
                    Obj::ByteArray(v) => {
                        let ghost v0 = v;
                        proof {
                            assert(v@ == self.bytes(*old(heap)));
                        }
                        let (v2, r) = f(v);
                        heap.objects.insert(h.idx, Obj::ByteArray(v2));
                        proof {
                            assert(heap.objects@ =~= old(heap).objects@.update(
                                h.idx as int,
                                Obj::ByteArray(v2),
                            ));
                        }
                        r
                    },
                    _ => unreached(),
                }
            },
            PyRwBytesLike::Array(h) => {
                let obj = heap.objects.remove(h.idx);
                match obj {
                    Obj::Array(a) => {
                        let w = a.width;
                        let b = a.to_bytes();
                        let ghost b0 = b;
                        let (b2, r) = f(b);
                        proof {
                            lemma_fundamental_div_mod_converse(
                                a.byte_view().len() as int,
                                w as int,
                                a.elems@.len() as int,
                                0,
                            );
                            assert((b2@.len() as int) % (w as int) == 0);
                        }
                        let a2 = PyArray::from_bytes(w, &b2);
                        heap.objects.insert(h.idx, Obj::Array(a2));
                        proof {
                            assert(heap.objects@ =~= old(heap).objects@.update(
                                h.idx as int,
                                Obj::Array(a2),
                            ));
                        }
                        r
                    },
                    _ => unreached(),
                }
            },
        }
    }
}

impl PyAsciiBytesLike {
    pub open spec fn wf(self, heap: Heap) -> bool {
        match self {
            PyAsciiBytesLike::Str(h) => heap.valid_handle(h) && heap.obj_at(h) is Str
                && vstd::utf8::is_ascii_chars(heap.obj_at(h)->Str_0@),
            PyAsciiBytesLike::Buffer(b) => b.wf(heap),
        }
    }

    /// The byte sequence this view reads: for a textual value, its characters
    /// one byte each (single-byte text and its byte encoding coincide).
    pub open spec fn bytes(self, heap: Heap) -> Seq<u8> {
        match self {
            PyAsciiBytesLike::Str(h) => Seq::new(
                heap.obj_at(h)->Str_0@.len(),
                |i: int| heap.obj_at(h)->Str_0@[i] as u8,
            ),
            PyAsciiBytesLike::Buffer(b) => b.bytes(heap),
        }
    }

    /// Dispatch with the textual coercion rule: a textual value is accepted
    /// exactly when all its characters are ASCII, and is checked before any
    /// buffer dispatch, so a non-ASCII textual value never reaches the
    /// "bytes-like object required" error.
    pub fn try_from_object(heap: &Heap, obj: Handle) -> (r: Result<PyAsciiBytesLike, PyErr>)
        requires
            heap.valid_handle(obj),
            heap.obj_at(obj).wf(),
        ensures
            heap.obj_at(obj) is Str && vstd::utf8::is_ascii_chars(heap.obj_at(obj)->Str_0@) ==> r
                == Ok::<PyAsciiBytesLike, PyErr>(PyAsciiBytesLike::Str(obj)),
            heap.obj_at(obj) is Str && !vstd::utf8::is_ascii_chars(heap.obj_at(obj)->Str_0@) ==> r
                == Err::<PyAsciiBytesLike, PyErr>(PyErr::NonAsciiString),
            !(heap.obj_at(obj) is Str) && PyBytesLike::admissible(*heap, obj) ==> (r matches Ok(
                PyAsciiBytesLike::Buffer(b),
            ) && b.handle() == obj && b.wf(*heap)),
            !(heap.obj_at(obj) is Str) && !PyBytesLike::admissible(*heap, obj) ==> r
                == Err::<PyAsciiBytesLike, PyErr>(
                PyErr::BytesLikeRequired(heap.obj_at(obj).class_spec()),
            ),
            r matches Ok(v) ==> v.wf(*heap),
    {
        let o = slice_index_get(heap.objects.as_slice(), obj.idx);
        match o {
            Obj::Str(s) => {
                if s.as_str().is_ascii() {
                    Ok(PyAsciiBytesLike::Str(obj))
                } else {
                    Err(PyErr::NonAsciiString)
                }
            },
            _ => {
                match PyBytesLike::try_from_object(heap, obj) {
                    Ok(b) => Ok(PyAsciiBytesLike::Buffer(b)),
                    Err(e) => Err(e),
                }
            },
        }
    }

    pub fn len(&self, heap: &Heap) -> (n: usize)
        requires
            self.wf(*heap),
        ensures
            n == self.bytes(*heap).len(),
    {
        match self {
            PyAsciiBytesLike::Str(h) => {
                match slice_index_get(heap.objects.as_slice(), h.idx) {
                    Obj::Str(s) => {
                        let bs = s.as_str().as_bytes();
                        proof {
                            vstd::utf8::is_ascii_chars_encode_utf8(s@);
                        }
                        bs.len()
                    },
                    _ => unreached(),
                }
            },
            PyAsciiBytesLike::Buffer(b) => b.len(heap),
        }
    }

    pub fn is_empty(&self, heap: &Heap) -> (b: bool)
        requires
            self.wf(*heap),
        ensures
            b == (self.bytes(*heap).len() == 0),
    {
        self.len(heap) == 0
    }

    /// Scoped read access, as on the read-only buffer view; a textual value
    /// lends the bytes of its ASCII characters without a copy.
    pub fn with_ref<R, F: FnOnce(&[u8]) -> R>(&self, heap: &Heap, f: F) -> (r: R)
        requires
            self.wf(*heap),
            forall|bs: &[u8]| bs@ == self.bytes(*heap) ==> call_requires(f, (bs,)),
        ensures
            exists|bs: &[u8]| bs@ == self.bytes(*heap) && call_ensures(f, (bs,), r),
    {
        match self {
            PyAsciiBytesLike::Str(h) => {
                match slice_index_get(heap.objects.as_slice(), h.idx) {
                    Obj::Str(s) => {
                        let bs = s.as_str().as_bytes();
                        proof {
                            vstd::utf8::is_ascii_chars_encode_utf8(s@);
                            assert(bs@ =~= self.bytes(*heap));
                        }
                        f(bs)
                    },
                    _ => unreached(),
                }
            },
            PyAsciiBytesLike::Buffer(b) => b.with_ref(heap, f),
        }
    }
}

} // verus!
