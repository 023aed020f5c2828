//! Compile-time pool of text literals feeding the wasm data section.
//!
//! Interning a text appends its bytes, pads to the header alignment and
//! appends an 8-byte `{ ptr, len }` header. The header's offset is the
//! runtime value of the literal. The same text is stored once.

use vstd::prelude::*;
use vstd::string::StringSliceAdditionalSpecFns;

use crate::layout::{STRING_HEADER_ALIGN, STRING_HEADER_SIZE};

verus! {

/// Errors produced by [`StringPool::intern`].
#[derive(Clone, Copy, Debug, PartialEq, Eq, Structural)]
pub enum StringPoolError {
    /// An offset or a length does not fit in 32 bits.
    SizeOverflow { len: usize },
}

/// Where interned texts have their headers.
#[derive(Debug, PartialEq, Eq)]
pub struct TextOffsets {
    entries: Vec<(String, u32)>,
}

/// A growing data buffer and the header offset of each text in it.
#[derive(Debug, PartialEq, Eq)]
pub struct StringPool {
    data: Vec<u8>,
    by_text: TextOffsets,
}

/// The four bytes of `x`, least significant first.
pub open spec fn le32(x: u32) -> Seq<u8> {
    seq![
        (x % 256) as u8,
        ((x / 256) % 256) as u8,
        ((x / 65536) % 256) as u8,
        (x / 16777216) as u8,
    ]
}

/// The number whose little-endian bytes stand at `at`.
pub open spec fn read_le32(data: Seq<u8>, at: int) -> int {
    data[at] + data[at + 1] * 256 + data[at + 2] * 65536 + data[at + 3] * 16777216
}

/// Reading back what was written.
pub proof fn law_le32_round_trip(x: u32)
    ensures
        read_le32(le32(x), 0) == x,
{
    assert(x == x % 256 + ((x / 256) % 256) * 256 + ((x / 65536) % 256) * 65536 + (x / 16777216)
        * 16777216);
}

/// Append the little-endian bytes of `x`.
pub fn push_le32(data: &mut Vec<u8>, x: u32)
    ensures
        final(data)@ == old(data)@ + le32(x),
{
    data.push((x % 256) as u8);
    data.push(((x / 256) % 256) as u8);
    data.push(((x / 65536) % 256) as u8);
    data.push((x / 16777216) as u8);
}

/// A run of `n` zero bytes.
pub open spec fn zeros(n: nat) -> Seq<u8> {
    Seq::new(n, |i: int| 0u8)
}

/// The padding behind `len` bytes up to the header alignment.
pub open spec fn header_padding(len: int) -> nat {
    (crate::layout::round_up(len, STRING_HEADER_ALIGN as int) - len) as nat
}

/// The buffer after appending the bytes and the header of a new text.
pub open spec fn with_text(data: Seq<u8>, bytes: Seq<u8>) -> Seq<u8> {
    data + bytes + zeros(header_padding((data.len() + bytes.len()) as int)) + le32(
        data.len() as u32,
    ) + le32(bytes.len() as u32)
}

/// Where the header of a new text stands.
pub open spec fn header_at(data: Seq<u8>, bytes: Seq<u8>) -> int {
    crate::layout::round_up((data.len() + bytes.len()) as int, STRING_HEADER_ALIGN as int)
}

/// Whether the buffer stays within 32 bits with a new text and its header.
pub open spec fn text_fits(data: Seq<u8>, bytes: Seq<u8>) -> bool {
    header_at(data, bytes) + STRING_HEADER_SIZE <= u32::MAX
}

/// A header at `at` describes `bytes`: it is aligned and selects them.
pub open spec fn header_describes(data: Seq<u8>, at: u32, bytes: Seq<u8>) -> bool {
    at as int % STRING_HEADER_ALIGN as int == 0 && header_selects(data, at, bytes)
}

/// A header at `at` lies in the buffer, and its pointer and length select
/// `bytes`.
pub open spec fn header_selects(data: Seq<u8>, at: u32, bytes: Seq<u8>) -> bool {
    &&& at + 8 <= data.len()
    &&& 0 <= read_le32(data, at as int)
    &&& read_le32(data, at as int) + bytes.len() <= data.len()
    &&& read_le32(data, at + 4) == bytes.len()
    &&& data.subrange(read_le32(data, at as int), read_le32(data, at as int) + bytes.len())
        == bytes
}

/// The offset recorded for `text`.
pub open spec fn offset_of(entries: Seq<(Seq<char>, u32)>, text: Seq<char>) -> Option<u32>
    decreases entries.len(),
{
    if entries.len() == 0 {
        None
    } else if entries.last().0 == text {
        Some(entries.last().1)
    } else {
        offset_of(entries.drop_last(), text)
    }
}

impl View for TextOffsets {
    type V = Seq<(Seq<char>, u32)>;

    closed spec fn view(&self) -> Seq<(Seq<char>, u32)> {
        Seq::new(self.entries@.len(), |i: int| (self.entries@[i].0@, self.entries@[i].1))
    }
}

impl TextOffsets {
    /// The header offset of `text`, if it was interned.
    pub fn get(&self, text: &str) -> (r: Option<u32>)
        ensures
            r == offset_of(self@, text@),
    {
        let mut n: usize = self.entries.len();
        proof {
            assert(self@.take(n as int) =~= self@);
        }
        while n > 0
            invariant
                n <= self.entries@.len(),
                offset_of(self@, text@) == offset_of(self@.take(n as int), text@),
            decreases n,
        {
            proof {
                assert(self@.take(n as int).drop_last() =~= self@.take(n as int - 1));
            }
            let e = &self.entries[n - 1];
            if same_text(&e.0, text) {
                return Some(e.1);
            }
            n = n - 1;
        }
        proof {
            assert(self@.take(0).len() == 0);
        }
        None
    }

    /// An empty table.
    pub fn new() -> (r: Self)
        ensures
            r@ == Seq::<(Seq<char>, u32)>::empty(),
    {
        let r = TextOffsets { entries: Vec::new() };
        proof {
            assert(r@ =~= Seq::empty());
        }
        r
    }

    /// Record the header offset of `text`.
    pub fn insert(&mut self, text: &str, offset: u32)
        ensures
            final(self)@ == old(self)@.push((text@, offset)),
    {
        self.entries.push((text.to_owned(), offset));
        proof {
            assert(self@ =~= old(self)@.push((text@, offset)));
        }
    }
}

/// Compare two texts.
pub fn same_text(a: &str, b: &str) -> (r: bool)
    ensures
        r == (a@ == b@),
{
    let n: usize = a.unicode_len();
    if n != b.unicode_len() {
        return false;
    }
    let mut i: usize = 0;
    while i < n
        invariant
            n == a@.len(),
            n == b@.len(),
            i <= n,
            a@.take(i as int) == b@.take(i as int),
        decreases n - i,
    {
        if a.get_char(i) != b.get_char(i) {
            proof {
                assert(a@[i as int] != b@[i as int]);
            }
            return false;
        }
        proof {
            assert(a@.take(i as int + 1) =~= a@.take(i as int).push(a@[i as int]));
            assert(b@.take(i as int + 1) =~= b@.take(i as int).push(b@[i as int]));
        }
        i = i + 1;
    }
    proof {
        assert(a@.take(n as int) =~= a@);
        assert(b@.take(n as int) =~= b@);
    }
    true
}

/// The content of a [`StringPool`].
#[verifier::ext_equal]
pub struct PoolView {
    pub data: Seq<u8>,
    pub offsets: Seq<(Seq<char>, u32)>,
}

impl View for StringPool {
    type V = PoolView;

    closed spec fn view(&self) -> PoolView {
        PoolView { data: self.data@, offsets: self.by_text@ }
    }
}

impl PoolView {
    /// The empty pool.
    pub open spec fn empty() -> PoolView {
        PoolView { data: Seq::empty(), offsets: Seq::empty() }
    }

    /// Every recorded header describes its text.
    pub open spec fn well_formed(self) -> bool {
        forall|i: int|
            0 <= i < self.offsets.len() ==> header_describes(
                self.data,
                (#[trigger] self.offsets[i]).1,
                vstd::utf8::encode_utf8(self.offsets[i].0),
            )
    }

    /// The pool after interning `text`, and the header offset of `text`;
    /// `None` when the text no longer fits.
    pub open spec fn interned(self, text: Seq<char>) -> Option<(PoolView, u32)> {
        match offset_of(self.offsets, text) {
            Some(offset) => Some((self, offset)),
            None => {
                let bytes = vstd::utf8::encode_utf8(text);
                if text_fits(self.data, bytes) {
                    let at = header_at(self.data, bytes) as u32;
                    Some(
                        (
                            PoolView {
                                data: with_text(self.data, bytes),
                                offsets: self.offsets.push((text, at)),
                            },
                            at,
                        ),
                    )
                } else {
                    None
                }
            },
        }
    }
}

/// Whether a text of `len` bytes and its header fit behind `used` bytes.
fn has_room(used: usize, len: usize) -> (r: bool)
    requires
        used <= u32::MAX,
    ensures
        r == (crate::layout::round_up(used + len, STRING_HEADER_ALIGN as int) + STRING_HEADER_SIZE
            <= u32::MAX),
{
    proof {
        crate::layout::lemma_round_up(used + len, 4);
    }
    if len > 0xffff_ffff {
        return false;
    }
    let end: u64 = used as u64 + len as u64;
    (end + 3) / 4 * 4 + 8 <= 0xffff_ffff
}

/// Append the bytes of a text, and its header behind them. Returns where the
/// header stands.
fn append_text(data: &mut Vec<u8>, text: &str) -> (r: u32)
    requires
        text_fits(old(data)@, text.spec_bytes()),
    ensures
        r == header_at(old(data)@, text.spec_bytes()),
        final(data)@ == with_text(old(data)@, text.spec_bytes()),
        final(data)@.len() == r + STRING_HEADER_SIZE,
{
    let ghost bytes = text.spec_bytes();
    let ghost before = data@;
    let ghost target = header_at(before, bytes);
    proof {
        crate::layout::lemma_round_up((before.len() + bytes.len()) as int, 4);
    }
    let len: usize = text.as_bytes().len();
    let bytes_offset: u32 = data.len() as u32;
    data.extend_from_slice(text.as_bytes());
    proof {
        assert(data@ =~= before + bytes + zeros(0));
    }
    while data.len() % 4 != 0
        invariant
            before.len() + bytes.len() <= data@.len() <= target,
            target % 4 == 0,
            target < before.len() + bytes.len() + 4,
            data@ == before + bytes + zeros(
                (data@.len() - before.len() - bytes.len()) as nat,
            ),
        decreases target - data@.len(),
    {
        data.push(0);
        proof {
            assert(data@ =~= before + bytes + zeros(
                (data@.len() - before.len() - bytes.len()) as nat,
            ));
        }
    }
    proof {
        assert(data@.len() == target);
    }
    let header_offset: u32 = data.len() as u32;
    push_le32(data, bytes_offset);
    push_le32(data, len as u32);
    header_offset
}

impl StringPool {
    /// Build an empty pool.
    pub fn new() -> (r: Self)
        ensures
            r@ == PoolView::empty(),
    {
        StringPool { data: Vec::new(), by_text: TextOffsets::new() }
    }

    /// Every offset into the data has 32 bits.
    #[verifier::type_invariant]
    spec fn is_addressable(self) -> bool {
        self.data@.len() <= u32::MAX
    }

    /// Intern `text` and return its header's offset in the data buffer. A
    /// text that is already there keeps its offset. On failure the pool is
    /// untouched.
    pub fn intern(&mut self, text: &str) -> (r: Result<u32, StringPoolError>)
        ensures
            match r {
                Ok(offset) => old(self)@.interned(text@) == Some((final(self)@, offset)),
                Err(e) => {
                    &&& old(self)@.interned(text@) is None
                    &&& e == (StringPoolError::SizeOverflow { len: text.spec_bytes().len() as usize })
                    &&& final(self)@ == old(self)@
                },
            },
            final(self)@.data.len() <= u32::MAX,
    {
        proof {
            use_type_invariant(&*self);
        }
        if let Some(offset) = self.by_text.get(text) {
            return Ok(offset);
        }
        let len: usize = text.as_bytes().len();
        if !has_room(self.data.len(), len) {
            return Err(StringPoolError::SizeOverflow { len });
        }
        let mut data: Vec<u8> = Vec::new();
        std::mem::swap(&mut data, &mut self.data);
        let header_offset: u32 = append_text(&mut data, text);
        let mut by_text = TextOffsets::new();
        std::mem::swap(&mut by_text, &mut self.by_text);
        by_text.insert(text, header_offset);
        self.by_text = by_text;
        self.data = data;
        Ok(header_offset)
    }

    /// The data buffer, for the data segment at offset 0.
    pub fn data(&self) -> (r: &Vec<u8>)
        ensures
            r@ == self@.data,
            r@.len() <= u32::MAX,
    {
        proof {
            use_type_invariant(self);
        }
        &self.data
    }

    /// The header offsets of the interned texts.
    pub fn lookup_map(&self) -> (r: &TextOffsets)
        ensures
            r@ == self@.offsets,
    {
        &self.by_text
    }
}

// ── laws ─────────────────────────────────────────────────────────────

/// A header keeps describing its text when bytes are appended.
pub proof fn lemma_header_survives(data: Seq<u8>, grown: Seq<u8>, at: u32, bytes: Seq<u8>)
    requires
        data.is_prefix_of(grown),
        header_describes(data, at, bytes),
    ensures
        header_describes(grown, at, bytes),
{
    assert forall|i: int| 0 <= i < data.len() implies grown[i] == data[i] by {
        assert(grown.subrange(0, data.len() as int)[i] == data[i]);
    }
    let p = read_le32(data, at as int);
    assert(grown.subrange(p, p + bytes.len()) =~= data.subrange(p, p + bytes.len()));
}

/// The header written for a new text describes it.
proof fn lemma_new_header_describes(data: Seq<u8>, bytes: Seq<u8>)
    requires
        text_fits(data, bytes),
    ensures
        header_describes(with_text(data, bytes), header_at(data, bytes) as u32, bytes),
        data.is_prefix_of(with_text(data, bytes)),
{
    let grown = with_text(data, bytes);
    let at = header_at(data, bytes);
    crate::layout::lemma_round_up((data.len() + bytes.len()) as int, 4);
    law_le32_round_trip(data.len() as u32);
    law_le32_round_trip(bytes.len() as u32);
    let p = le32(data.len() as u32);
    let n = le32(bytes.len() as u32);
    assert(grown[at] == p[0] && grown[at + 1] == p[1] && grown[at + 2] == p[2] && grown[at + 3]
        == p[3]);
    assert(grown[at + 4] == n[0] && grown[at + 5] == n[1] && grown[at + 6] == n[2] && grown[at + 7]
        == n[3]);
    assert(grown.subrange(data.len() as int, (data.len() + bytes.len()) as int) =~= bytes);
    assert(grown.subrange(0, data.len() as int) =~= data);
}

/// Interning keeps every recorded header describing its text, the new one
/// included, and only appends to the data.
pub proof fn law_interning_keeps_headers(pool: PoolView, text: Seq<char>)
    requires
        pool.well_formed(),
        pool.interned(text) is Some,
    ensures
        (pool.interned(text)->0).0.well_formed(),
        pool.data.is_prefix_of((pool.interned(text)->0).0.data),
        header_describes(
            (pool.interned(text)->0).0.data,
            (pool.interned(text)->0).1,
            vstd::utf8::encode_utf8(text),
        ),
{
    let (after, at) = pool.interned(text)->0;
    let bytes = vstd::utf8::encode_utf8(text);
    match offset_of(pool.offsets, text) {
        Some(offset) => {
            lemma_offset_is_recorded(pool.offsets, text);
            assert(pool.data.subrange(0, pool.data.len() as int) =~= pool.data);
        },
        None => {
            lemma_new_header_describes(pool.data, bytes);
            assert forall|i: int| 0 <= i < after.offsets.len() implies header_describes(
                after.data,
                (#[trigger] after.offsets[i]).1,
                vstd::utf8::encode_utf8(after.offsets[i].0),
            ) by {
                if i < pool.offsets.len() {
                    assert(after.offsets[i] == pool.offsets[i]);
                    lemma_header_survives(
                        pool.data,
                        after.data,
                        pool.offsets[i].1,
                        vstd::utf8::encode_utf8(pool.offsets[i].0),
                    );
                }
            }
        },
    }
}

/// A recorded offset belongs to an entry.
pub proof fn lemma_offset_is_recorded(entries: Seq<(Seq<char>, u32)>, text: Seq<char>)
    requires
        offset_of(entries, text) is Some,
    ensures
        exists|i: int|
            0 <= i < entries.len() && #[trigger] entries[i] == (text, offset_of(entries, text)->0),
    decreases entries.len(),
{
    if entries.last().0 == text {
        assert(entries[entries.len() - 1] == (text, offset_of(entries, text)->0));
    } else {
        lemma_offset_is_recorded(entries.drop_last(), text);
        let i = choose|i: int|
            0 <= i < entries.drop_last().len() && #[trigger] entries.drop_last()[i] == (
                text,
                offset_of(entries.drop_last(), text)->0,
            );
        assert(entries[i] == entries.drop_last()[i]);
    }
}

/// Interning the same text again changes nothing and gives the same offset.
pub proof fn law_interning_is_idempotent(pool: PoolView, text: Seq<char>)
    requires
        pool.interned(text) is Some,
    ensures
        (pool.interned(text)->0).0.interned(text) == pool.interned(text),
{
}

/// Interning a text leaves the offset of every text that was there before.
pub proof fn law_interning_keeps_offsets(pool: PoolView, text: Seq<char>, other: Seq<char>)
    requires
        pool.interned(text) is Some,
        offset_of(pool.offsets, other) is Some,
    ensures
        offset_of((pool.interned(text)->0).0.offsets, other) == offset_of(pool.offsets, other),
{
    let after = (pool.interned(text)->0).0;
    if offset_of(pool.offsets, text) is None {
        assert(after.offsets.drop_last() =~= pool.offsets);
    }
}

} // verus!
