//! The pool of text literals.

use formawasm::string_pool::{StringPool, TextOffsets};

fn word(data: &[u8], at: usize) -> usize {
    u32::from_le_bytes([data[at], data[at + 1], data[at + 2], data[at + 3]]) as usize
}

#[test]
fn a_text_is_followed_by_its_header() {
    let mut pool = StringPool::new();
    assert_eq!(pool.intern("hello"), Ok(8));
    assert_eq!(
        pool.data().as_slice(),
        &[b'h', b'e', b'l', b'l', b'o', 0, 0, 0, 0, 0, 0, 0, 5, 0, 0, 0]
    );
}

#[test]
fn headers_describe_their_texts() {
    let mut pool = StringPool::new();
    let texts = ["", "a", "h\u{e9}llo", "\u{1f600}", "longer than the others"];
    let offsets: Vec<u32> = texts.iter().map(|t| pool.intern(t).unwrap()).collect();
    for (text, at) in texts.iter().zip(&offsets) {
        let at = *at as usize;
        assert_eq!(at % 4, 0);
        let (ptr, len) = (word(pool.data(), at), word(pool.data(), at + 4));
        assert_eq!(&pool.data()[ptr..ptr + len], text.as_bytes());
        assert_eq!(pool.lookup_map().get(text), Some(at as u32));
    }
}

#[test]
fn a_text_is_stored_once() {
    let mut pool = StringPool::new();
    let first = pool.intern("same");
    let size = pool.data().len();
    let other = pool.intern("other");
    assert_eq!(pool.intern("same"), first);
    assert_eq!(pool.intern("other"), other);
    assert!(pool.data().len() > size);
    let full = pool.data().len();
    assert_eq!(pool.intern("same"), first);
    assert_eq!(pool.data().len(), full);
    assert_ne!(first, other);
}

#[test]
fn unknown_texts_have_no_offset() {
    let mut pool = StringPool::new();
    pool.intern("a").unwrap();
    assert_eq!(pool.lookup_map().get("b"), None);
    assert_eq!(TextOffsets::new().get("a"), None);
}
