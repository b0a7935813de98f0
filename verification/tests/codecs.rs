use byteslike::binascii::{
    a2b_base64, a2b_hex, b2a_base64, crc32, hex_nibble, hexlify, trim_newline, unhex_nibble,
    unhexlify, unhexlify_internal,
};
use byteslike::byteslike::{PyAsciiBytesLike, PyBytesLike};
use byteslike::object::{Heap, Obj, PyErr};

fn bytes_view(heap: &mut Heap, data: &[u8]) -> PyBytesLike {
    let h = heap.allocate(Obj::Bytes(data.to_vec()));
    PyBytesLike::try_from_object(heap, h).unwrap()
}

fn ascii_view(heap: &mut Heap, text: &str) -> PyAsciiBytesLike {
    let h = heap.allocate(Obj::Str(text.to_string()));
    PyAsciiBytesLike::try_from_object(heap, h).unwrap()
}

#[test]
fn hex_nibble_alphabet() {
    assert_eq!(hex_nibble(0), b'0');
    assert_eq!(hex_nibble(9), b'9');
    assert_eq!(hex_nibble(10), b'a');
    assert_eq!(hex_nibble(15), b'f');
}

#[test]
fn unhex_nibble_cases() {
    assert_eq!(unhex_nibble(b'0'), Some(0));
    assert_eq!(unhex_nibble(b'9'), Some(9));
    assert_eq!(unhex_nibble(b'a'), Some(10));
    assert_eq!(unhex_nibble(b'F'), Some(15));
    assert_eq!(unhex_nibble(b'g'), None);
    assert_eq!(unhex_nibble(b' '), None);
}

#[test]
fn hexlify_example() {
    let mut heap = Heap::new();
    let v = bytes_view(&mut heap, &[0x00, 0xff, 0x1a]);
    assert_eq!(hexlify(&v, &heap), b"00ff1a".to_vec());
}

#[test]
fn hexlify_empty() {
    let mut heap = Heap::new();
    let v = bytes_view(&mut heap, &[]);
    assert_eq!(hexlify(&v, &heap), Vec::<u8>::new());
}

#[test]
fn unhexlify_round_trip() {
    let mut heap = Heap::new();
    let data: Vec<u8> = (0u8..=255).collect();
    let v = bytes_view(&mut heap, &data);
    let encoded = hexlify(&v, &heap);
    let e = bytes_view(&mut heap, &encoded);
    assert_eq!(unhexlify(&e, &heap).unwrap(), data);
}

#[test]
fn unhexlify_odd_length_rejected() {
    assert_eq!(unhexlify_internal(b"ODD"), Err(PyErr::OddLength));
    assert_eq!(unhexlify_internal(b"a"), Err(PyErr::OddLength));
}

#[test]
fn unhexlify_non_hex_digit_rejected() {
    assert_eq!(unhexlify_internal(b"zz"), Err(PyErr::NonHexDigit));
    assert_eq!(unhexlify_internal(b"12g4"), Err(PyErr::NonHexDigit));
}

#[test]
fn unhexlify_mixed_case() {
    assert_eq!(unhexlify_internal(b"00FF1a"), Ok(vec![0x00, 0xff, 0x1a]));
}

#[test]
fn a2b_hex_from_text() {
    let mut heap = Heap::new();
    let v = ascii_view(&mut heap, "68656c6c6f");
    assert_eq!(a2b_hex(&v, &heap).unwrap(), b"hello".to_vec());
}

#[test]
fn a2b_hex_odd_from_text() {
    let mut heap = Heap::new();
    let v = ascii_view(&mut heap, "abc");
    assert_eq!(a2b_hex(&v, &heap), Err(PyErr::OddLength));
}

#[test]
fn crc32_empty_is_seed() {
    let mut heap = Heap::new();
    let v = bytes_view(&mut heap, b"");
    assert_eq!(crc32(&v, &heap, None), 0);
    assert_eq!(crc32(&v, &heap, Some(0xdead_beef)), 0xdead_beef);
}

#[test]
fn crc32_hello() {
    let mut heap = Heap::new();
    let v = bytes_view(&mut heap, b"hello");
    assert_eq!(crc32(&v, &heap, None), 0x3610_a686);
}

#[test]
fn crc32_continuation() {
    let mut heap = Heap::new();
    let first = bytes_view(&mut heap, b"hel");
    let second = bytes_view(&mut heap, b"lo");
    let whole = bytes_view(&mut heap, b"hello");
    let running = crc32(&first, &heap, Some(0));
    assert_eq!(crc32(&second, &heap, Some(running)), crc32(&whole, &heap, None));
}

#[test]
fn trim_newline_cases() {
    assert_eq!(trim_newline(b"abc\n"), b"abc");
    assert_eq!(trim_newline(b"abc"), b"abc");
    assert_eq!(trim_newline(b"abc\n\n"), b"abc\n");
    assert_eq!(trim_newline(b""), b"");
}

#[test]
fn b2a_base64_newline_flag() {
    let mut heap = Heap::new();
    let v = bytes_view(&mut heap, b"hello");
    let with_newline = b2a_base64(&v, &heap, true);
    let without_newline = b2a_base64(&v, &heap, false);
    assert_eq!(with_newline, b"aGVsbG8=\n".to_vec());
    assert_eq!(without_newline, b"aGVsbG8=".to_vec());
    assert_eq!(*with_newline.last().unwrap(), b'\n');
    assert_ne!(*without_newline.last().unwrap(), b'\n');
}

#[test]
fn base64_round_trip() {
    let mut heap = Heap::new();
    let data: Vec<u8> = (0u8..=255).collect();
    let v = bytes_view(&mut heap, &data);
    let encoded = b2a_base64(&v, &heap, true);
    let text = String::from_utf8(encoded).unwrap();
    let e = ascii_view(&mut heap, &text);
    assert_eq!(a2b_base64(&e, &heap).unwrap(), data);
}

#[test]
fn a2b_base64_strips_one_newline() {
    let mut heap = Heap::new();
    let v = ascii_view(&mut heap, "aGVsbG8=\n");
    assert_eq!(a2b_base64(&v, &heap).unwrap(), b"hello".to_vec());
}

#[test]
fn a2b_base64_bad_payload() {
    let mut heap = Heap::new();
    let v = ascii_view(&mut heap, "!!!!");
    let r = a2b_base64(&v, &heap);
    assert!(matches!(r, Err(PyErr::Base64(_))));
}

#[test]
fn base64_empty_input() {
    let mut heap = Heap::new();
    let v = bytes_view(&mut heap, b"");
    assert_eq!(b2a_base64(&v, &heap, false), Vec::<u8>::new());
    assert_eq!(b2a_base64(&v, &heap, true), b"\n".to_vec());
    let e = ascii_view(&mut heap, "");
    assert!(e.is_empty(&heap));
    assert_eq!(a2b_base64(&e, &heap).unwrap(), Vec::<u8>::new());
}
