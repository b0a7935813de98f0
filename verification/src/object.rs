use vstd::prelude::*;

use vstd::arithmetic::div_mod::lemma_fundamental_div_mod_converse;
use vstd::slice::slice_index_get;

use crate::singletons::{PyNone, PyNotImplemented};

verus! {

/// Identity of a concrete heap value's representation.  A handle's class is
/// fixed for the handle's lifetime: nothing in this crate changes a slot's
/// variant once allocated.
#[derive(Clone, Copy, PartialEq, Eq, Structural, Debug)]
pub enum Class {
    Bytes,
    ByteArray,
    Array,
    Str,
    NoneType,
    NotImplementedType,
}

/// A failure surfaced to a caller: either the handle's representation is
/// outside the admissible set for the requested view (the two `*Required`
/// variants, naming the offending class), or the representation was accepted
/// but the content violates an operation's precondition.
#[derive(Debug, PartialEq, Eq)]
pub enum PyErr {
    /// A bytes-like object is required; the payload is the offending class.
    BytesLikeRequired(Class),
    /// A mutable buffer object is required; the payload is the offending class.
    BufferRequired(Class),
    /// A textual argument must contain only ASCII characters.
    NonAsciiString,
    /// Hex decoding was given an odd-length string.
    OddLength,
    /// Hex decoding found a byte outside the hexadecimal alphabet.
    NonHexDigit,
    /// Base64 decoding failed; the payload is the decoder's detail text.
    Base64(String),
}

/// Admissible widths, in bytes, of one element of a typed numeric array.
pub open spec fn valid_width(w: usize) -> bool {
    w == 1 || w == 2 || w == 4 || w == 8
}

/// Byte `j` (little-endian, `0 <= j < 8`) of the element value `v`.
pub open spec fn le_byte(v: u64, j: int) -> u8 {
    ((v >> ((8 * j) as u64)) & 0xff) as u8
}

/// The element value `v` uses only its low `w` bytes.
pub open spec fn elem_fits(v: u64, w: usize) -> bool {
    w >= 8 || (v >> ((8 * w) as u64)) == 0
}

/// A typed numeric array: fixed-width elements whose byte view is the
/// little-endian bytes of each element, in element order.
pub struct PyArray {
    pub width: usize,
    pub elems: Vec<u64>,
}

impl PyArray {
    pub open spec fn wf(self) -> bool {
        &&& valid_width(self.width)
        &&& self.elems@.len() * self.width <= usize::MAX
        &&& forall|i: int| 0 <= i < self.elems@.len() ==> elem_fits(#[trigger] self.elems@[i], self.width)
    }

    /// The raw bytes this array stands for: element count times element width
    /// bytes, little-endian within each element.
    pub open spec fn byte_view(self) -> Seq<u8> {
        Seq::new(
            (self.elems@.len() * self.width) as nat,
            |i: int| le_byte(self.elems@[i / (self.width as int)], i % (self.width as int)),
        )
    }

    /// Element count times element width, the length of the byte view.
    pub fn byte_len(&self) -> (n: usize)
        requires
            self.wf(),
        ensures
            n == self.byte_view().len(),
    {
        self.elems.len() * self.width
    }

    /// Materialise the byte view as an owned vector.
    pub fn to_bytes(&self) -> (out: Vec<u8>)
        requires
            self.wf(),
        ensures
            out@ == self.byte_view(),
    {
        let w = self.width;
        let n = self.elems.len();
        let mut out: Vec<u8> = Vec::new();
        let mut i: usize = 0;
        while i < n
            invariant
                self.wf(),
                w == self.width,
                n == self.elems@.len(),
                0 <= i <= n,
                out@.len() == i * w,
                forall|b: int| 0 <= b < i * w ==> out@[b] == self.byte_view()[b],
            decreases n - i,
        {
            let e = self.elems[i];
            let mut j: usize = 0;
            proof {
                assert((i + 1) * w <= n * w) by (nonlinear_arith)
                    requires i + 1 <= n, w >= 0;
                assert(i * w + w == (i + 1) * w) by (nonlinear_arith);
            }
            while j < w
                invariant
                    self.wf(),
                    w == self.width,
                    n == self.elems@.len(),
                    0 <= i < n,
                    0 <= j <= w,
                    e == self.elems@[i as int],
                    i * w + w <= n * w,
                    out@.len() == i * w + j,
                    forall|b: int| 0 <= b < i * w + j ==> out@[b] == self.byte_view()[b],
                decreases w - j,
            {
                let ghost p: int = i * w + j;
                proof {
                    lemma_fundamental_div_mod_converse(p, w as int, i as int, j as int);
                    assert(self.byte_view().len() == n * w);
                    assert(p < n * w);
                    assert(self.byte_view()[p] == le_byte(e, j as int));
                }
                out.push(((e >> ((8 * j) as u64)) & 0xff) as u8);
                j += 1;
            }
            i += 1;
        }
        proof {
            assert(out@ =~= self.byte_view());
        }
        out
    }

    /// Rebuild an array of the given element width from raw bytes; the byte
    /// view of the result is exactly the input.
    pub fn from_bytes(width: usize, bytes: &Vec<u8>) -> (out: PyArray)
        requires
            valid_width(width),
            (bytes@.len() as int) % (width as int) == 0,
        ensures
            out.wf(),
            out.width == width,
            out.byte_view() == bytes@,
    {
        let mut elems: Vec<u64> = Vec::new();
        let n = bytes.len();
        let mut base: usize = 0;
        while base < n
            invariant
                valid_width(width),
                n == bytes@.len(),
                0 <= base <= n,
                base == elems@.len() * width,
                forall|t: int| 0 <= t < elems@.len() ==> elem_fits(#[trigger] elems@[t], width),
                forall|b: int|
                    0 <= b < base ==> le_byte(
                        elems@[b / (width as int)],
                        b % (width as int),
                    ) == bytes@[b],
                (n as int) % (width as int) == 0,
            decreases n - base,
        {
            proof {
                lemma_chunk_bound(base as int, n as int, width as int, elems@.len() as int);
            }
            let mut x: u64 = 0;
            let mut j: usize = 0;
            proof {
                assert(0u64 >> 0u64 == 0u64) by (bit_vector);
                assert(x >> ((8 * j) as u64) == 0);
            }
            while j < width
                invariant
                    valid_width(width),
                    n == bytes@.len(),
                    base + width <= n,
                    0 <= j <= width,
                    forall|k: int| 0 <= k < j ==> le_byte(x, k) == bytes@[base + k],
                    j < 8 ==> x >> ((8 * j) as u64) == 0,
                decreases width - j,
            {
                let b = bytes[base + j];
                let ghost x0 = x;
                let ghost j64: u64 = j as u64;
                x = x | ((b as u64) << ((8 * j) as u64));
                proof {
                    assert((8 * j) as u64 == 8 * j64);
                    assert(x == x0 | ((b as u64) << (8 * j64)));
                    lemma_or_sets_byte(x0, b as u64, j64);
                    assert(le_byte(x, j as int) == bytes@[base + j]);
                    assert forall|k: int| 0 <= k < j implies le_byte(x, k) == bytes@[base + k] by {
                        let k64: u64 = k as u64;
                        assert((8 * k) as u64 == 8 * k64);
                        lemma_or_keeps_low_bytes(x0, b as u64, j64, k64);
                        assert(le_byte(x, k) == le_byte(x0, k));
                    }
                    if j + 1 < 8 {
                        lemma_or_keeps_high_zero(x0, b as u64, j64);
                        assert((8 * (j + 1)) as u64 == 8 * (j64 + 1));
                    }
                }
                j += 1;
            }
            let ghost c: int = elems@.len() as int;
            elems.push(x);
            base = base + width;
            proof {
                assert(elem_fits(x, width));
                assert forall|b: int| c * width <= b < c * width + width implies le_byte(
                    elems@[b / (width as int)],
                    b % (width as int),
                ) == bytes@[b] by {
                    lemma_fundamental_div_mod_converse(b, width as int, c, b - c * width);
                    assert(le_byte(x, b - c * width) == bytes@[b]);
                }
                assert((c + 1) * width == c * width + width) by (nonlinear_arith);
            }
        }
        let out = PyArray { width, elems };
        proof {
            assert(elems@.len() * width == n);
            assert(out.byte_view() =~= bytes@);
        }
        out
    }
}

/// If `base < n`, `base` is `c` whole chunks of `width` bytes, and `n` is a
/// multiple of `width`, then a whole further chunk fits below `n`.
proof fn lemma_chunk_bound(base: int, n: int, width: int, c: int)
    requires
        width > 0,
        0 <= base < n,
        base == c * width,
        n % width == 0,
    ensures
        base + width <= n,
{
    let m = n / width;
    vstd::arithmetic::div_mod::lemma_fundamental_div_mod(n, width);
    assert(n == m * width);
    assert(c < m) by (nonlinear_arith)
        requires base == c * width, n == m * width, base < n, width > 0;
    assert((c + 1) * width <= m * width) by (nonlinear_arith)
        requires c + 1 <= m, width > 0;
    assert((c + 1) * width == c * width + width) by (nonlinear_arith);
}

proof fn lemma_or_sets_byte(x: u64, b: u64, j: u64)
    requires
        j < 8 ==> x >> (8 * j) == 0,
        j < 8,
        b < 256,
    ensures
        ((x | (b << (8 * j))) >> (8 * j)) & 0xff == b,
{
    assert((x >> (8 * j) == 0 && j < 8 && b < 256) ==> ((x | (b << (8 * j))) >> (8 * j)) & 0xff
        == b) by (bit_vector);
}

proof fn lemma_or_keeps_low_bytes(x: u64, b: u64, j: u64, k: u64)
    requires
        b < 256,
        k < j,
        j < 8,
    ensures
        ((x | (b << (8 * j))) >> (8 * k)) & 0xff == (x >> (8 * k)) & 0xff,
{
    assert((b < 256 && k < j && j < 8) ==> ((x | (b << (8 * j))) >> (8 * k)) & 0xff == (x >> (8
        * k)) & 0xff) by (bit_vector);
}

proof fn lemma_or_keeps_high_zero(x: u64, b: u64, j: u64)
    requires
        x >> (8 * j) == 0,
        b < 256,
        j + 1 < 8,
    ensures
        (x | (b << (8 * j))) >> (8 * (j + 1)) == 0,
{
    assert((x >> (8 * j) == 0 && b < 256 && j + 1 < 8) ==> (x | (b << (8 * j))) >> (8 * (j + 1))
        == 0) by (bit_vector);
}

/// A heap value: one of the closed set of concrete representations this core
/// dispatches over.
pub enum Obj {
    /// An immutable byte sequence.
    Bytes(Vec<u8>),
    /// A mutable, resizable byte sequence.
    ByteArray(Vec<u8>),
    /// A mutable typed numeric array, reinterpretable as raw bytes.
    Array(PyArray),
    /// A textual value.
    Str(String),
    /// The "no value" singleton.
    NoneVal(PyNone),
    /// The "not implemented" singleton.
    NotImplementedVal(PyNotImplemented),
}

impl Obj {
    /// A heap value is well formed when its representation's own invariant
    /// holds; only the typed numeric array carries one.
    pub open spec fn wf(self) -> bool {
        match self {
            Obj::Array(a) => a.wf(),
            _ => true,
        }
    }

    pub open spec fn class_spec(self) -> Class {
        match self {
            Obj::Bytes(_) => Class::Bytes,
            Obj::ByteArray(_) => Class::ByteArray,
            Obj::Array(_) => Class::Array,
            Obj::Str(_) => Class::Str,
            Obj::NoneVal(_) => Class::NoneType,
            Obj::NotImplementedVal(_) => Class::NotImplementedType,
        }
    }

    pub fn class(&self) -> (c: Class)
        ensures
            c == self.class_spec(),
    {
        match self {
            Obj::Bytes(_) => Class::Bytes,
            Obj::ByteArray(_) => Class::ByteArray,
            Obj::Array(_) => Class::Array,
            Obj::Str(_) => Class::Str,
            Obj::NoneVal(_) => Class::NoneType,
            Obj::NotImplementedVal(_) => Class::NotImplementedType,
        }
    }
}

/// A shared, type-erased reference to a heap value: an index into the heap's
/// object arena.  Two handles with the same index alias the same value.
#[derive(Clone, Copy, PartialEq, Eq, Structural, Debug)]
pub struct Handle {
    pub idx: usize,
}

/// The arena owning every heap value.  Values are created by `alloc` and live
/// for the heap's lifetime; slots never change their representation.
pub struct Heap {
    pub objects: Vec<Obj>,
}

impl Heap {
    pub open spec fn valid_handle(self, h: Handle) -> bool {
        h.idx < self.objects@.len()
    }

    pub open spec fn obj_at(self, h: Handle) -> Obj {
        self.objects@[h.idx as int]
    }

    pub fn new() -> (heap: Heap)
        ensures
            heap.objects@.len() == 0,
    {
        Heap { objects: Vec::new() }
    }

    /// Place a new value on the heap and hand back its handle.
    pub fn allocate(&mut self, obj: Obj) -> (h: Handle)
        ensures
            final(self).objects@ == old(self).objects@.push(obj),
            h.idx == old(self).objects@.len(),
            final(self).valid_handle(h),
            final(self).obj_at(h) == obj,
    {
        let idx = self.objects.len();
        self.objects.push(obj);
        Handle { idx }
    }

    /// The class of the value a handle refers to.
    pub fn class_of(&self, h: Handle) -> (c: Class)
        requires
            self.valid_handle(h),
        ensures
            c == self.obj_at(h).class_spec(),
    {
        let obj = slice_index_get(self.objects.as_slice(), h.idx);
        obj.class()
    }
}

} // verus!
