//! What a core module's bytes carry, section by section.

use vstd::prelude::*;

verus! {

/// Module name of the functions that the host supplies: `cm32p2`.
pub open spec fn host_module() -> Seq<u8> {
    seq![0x63u8, 0x6du8, 0x33u8, 0x32u8, 0x70u8, 0x32u8]
}

/// How the names of sections begin that describe a world: `component-type`.
pub open spec fn description_prefix() -> Seq<u8> {
    seq![
        0x63u8,
        0x6fu8,
        0x6du8,
        0x70u8,
        0x6fu8,
        0x6eu8,
        0x65u8,
        0x6eu8,
        0x74u8,
        0x2du8,
        0x74u8,
        0x79u8,
        0x70u8,
        0x65u8,
    ]
}

/// A bracket, with which the names of intrinsics are written.
pub const BRACKET: u8 = 0x5b;

/// A number of at most five bytes, seven bits in each, the low ones first, and
/// the position behind it. `k` of the bytes were read before.
pub open spec fn digits(bytes: Seq<u8>, at: int, end: int, k: nat) -> Option<(int, int)>
    decreases 5 - k,
{
    if k >= 5 || at < 0 || at >= end || end > bytes.len() {
        None
    } else if bytes[at] < 0x80 {
        Some((bytes[at] as int, at + 1))
    } else {
        match digits(bytes, at + 1, end, k + 1) {
            None => None,
            Some((v, p)) => Some((bytes[at] - 0x80 + 0x80 * v, p)),
        }
    }
}

/// A 32-bit number, and the position behind it.
pub open spec fn number(bytes: Seq<u8>, at: int, end: int) -> Option<(int, int)> {
    match digits(bytes, at, end, 0) {
        Some((v, p)) if v <= u32::MAX => Some((v, p)),
        _ => None,
    }
}

/// A name, and the position behind it.
pub open spec fn name_at(bytes: Seq<u8>, at: int, end: int) -> Option<(Seq<u8>, int)> {
    match number(bytes, at, end) {
        Some((n, p)) if p + n <= end => Some((bytes.subrange(p, p + n), p + n)),
        _ => None,
    }
}

/// What stands behind the name of an import or export: a byte for its kind and
/// an index. The kind, and the position behind both.
pub open spec fn kind_at(bytes: Seq<u8>, at: int, end: int) -> Option<(u8, int)> {
    if at < 0 || at >= end || end > bytes.len() {
        None
    } else {
        match number(bytes, at + 1, end) {
            Some((_, p)) => Some((bytes[at], p)),
            None => None,
        }
    }
}

/// The next `n` imports are functions of the host, and no intrinsics.
pub open spec fn own_imports(bytes: Seq<u8>, at: int, end: int, n: nat) -> bool
    decreases n,
{
    n == 0 || match name_at(bytes, at, end) {
        None => false,
        Some((from, p)) => match name_at(bytes, p, end) {
            None => false,
            Some((name, q)) => match kind_at(bytes, q, end) {
                None => false,
                Some((kind, next)) => {
                    &&& from == host_module()
                    &&& !name.contains(BRACKET)
                    &&& kind == 0
                    &&& own_imports(bytes, next, end, (n - 1) as nat)
                },
            },
        },
    }
}

/// The next `n` exports have plain names: none is that of an intrinsic, and
/// none begins like the host's module.
pub open spec fn own_exports(bytes: Seq<u8>, at: int, end: int, n: nat) -> bool
    decreases n,
{
    n == 0 || match name_at(bytes, at, end) {
        None => false,
        Some((name, p)) => match kind_at(bytes, p, end) {
            None => false,
            Some((_, next)) => {
                &&& !host_module().is_prefix_of(name)
                &&& !name.contains(BRACKET)
                &&& own_exports(bytes, next, end, (n - 1) as nat)
            },
        },
    }
}

/// A section holds nothing that a core module of this library does not hold:
/// no description of a world, no import but functions of the host, and no name
/// of an intrinsic.
pub open spec fn own_section(bytes: Seq<u8>, id: u8, at: int, end: int) -> bool {
    if id == 0 {
        name_at(bytes, at, end) matches Some((name, _)) && !description_prefix().is_prefix_of(name)
    } else if id == 2 {
        number(bytes, at, end) matches Some((n, p)) && own_imports(bytes, p, end, n as nat)
    } else if id == 7 {
        number(bytes, at, end) matches Some((n, p)) && own_exports(bytes, p, end, n as nat)
    } else {
        true
    }
}

/// The bytes from `at` on are sections of that kind, up to their end.
pub open spec fn own_sections(bytes: Seq<u8>, at: int) -> bool
    decreases bytes.len() - at,
{
    if at < 0 || at >= bytes.len() {
        at == bytes.len()
    } else {
        match number(bytes, at + 1, bytes.len() as int) {
            None => false,
            Some((n, p)) => {
                &&& n >= 0
                &&& p > at
                &&& p + n <= bytes.len()
                &&& own_section(bytes, bytes[at], p, p + n)
                &&& own_sections(bytes, p + n)
            },
        }
    }
}

/// Whether bytes begin as a core module does, as far as they go.
pub open spec fn begins_as_module(bytes: Seq<u8>) -> bool {
    bytes.is_prefix_of(crate::encode::module_header())
        || crate::encode::module_header().is_prefix_of(bytes)
}

/// Whether bytes carry only what the core modules of this library carry.
/// Bytes that begin otherwise than a core module carry nothing at all.
pub open spec fn is_own(bytes: Seq<u8>) -> bool {
    begins_as_module(bytes) ==> bytes.len() >= 8 && own_sections(bytes, 8)
}

proof fn lemma_digits(bytes: Seq<u8>, at: int, end: int, k: nat)
    ensures
        digits(bytes, at, end, k) matches Some((v, p)) ==> {
            &&& at < p <= end
            &&& 0 <= v
            &&& k == 4 ==> v < 0x80
            &&& k == 3 ==> v < 0x4000
            &&& k == 2 ==> v < 0x20_0000
            &&& k == 1 ==> v < 0x1000_0000
            &&& k == 0 ==> v < 0x8_0000_0000
        },
    decreases 5 - k,
{
    if k < 5 && 0 <= at < end && end <= bytes.len() && bytes[at] >= 0x80 {
        lemma_digits(bytes, at + 1, end, k + 1);
    }
}

fn read_digits(bytes: &Vec<u8>, at: usize, end: usize, k: u8) -> (r: Option<(u64, usize)>)
    requires
        end <= bytes@.len(),
        k <= 5,
    ensures
        match r {
            Some((v, p)) => digits(bytes@, at as int, end as int, k as nat) == Some(
                (v as int, p as int),
            ),
            None => digits(bytes@, at as int, end as int, k as nat) is None,
        },
    decreases 5 - k,
{
    if k >= 5 || at >= end {
        return None;
    }
    let b: u8 = bytes[at];
    if b < 0x80 {
        return Some((b as u64, at + 1));
    }
    proof {
        lemma_digits(bytes@, at + 1, end as int, (k + 1) as nat);
    }
    match read_digits(bytes, at + 1, end, k + 1) {
        None => None,
        Some((v, p)) => Some(((b - 0x80) as u64 + 0x80 * v, p)),
    }
}

fn read_number(bytes: &Vec<u8>, at: usize, end: usize) -> (r: Option<(usize, usize)>)
    requires
        end <= bytes@.len(),
    ensures
        match r {
            Some((v, p)) => {
                &&& number(bytes@, at as int, end as int) == Some((v as int, p as int))
                &&& v <= u32::MAX
                &&& at < p <= end
            },
            None => number(bytes@, at as int, end as int) is None,
        },
{
    proof {
        lemma_digits(bytes@, at as int, end as int, 0);
    }
    match read_digits(bytes, at, end, 0) {
        Some((v, p)) => {
            if v <= 0xffff_ffff {
                Some((v as u32 as usize, p))
            } else {
                None
            }
        },
        None => None,
    }
}

/// Where a name begins, and the position behind it.
fn read_name(bytes: &Vec<u8>, at: usize, end: usize) -> (r: Option<(usize, usize)>)
    requires
        end <= bytes@.len(),
    ensures
        match r {
            Some((from, to)) => {
                &&& name_at(bytes@, at as int, end as int) == Some(
                    (bytes@.subrange(from as int, to as int), to as int),
                )
                &&& at < from <= to <= end
            },
            None => name_at(bytes@, at as int, end as int) is None,
        },
{
    match read_number(bytes, at, end) {
        None => None,
        Some((n, p)) => {
            if n <= end - p {
                Some((p, p + n))
            } else {
                None
            }
        },
    }
}

fn read_kind(bytes: &Vec<u8>, at: usize, end: usize) -> (r: Option<(u8, usize)>)
    requires
        end <= bytes@.len(),
    ensures
        match r {
            Some((kind, next)) => {
                &&& kind_at(bytes@, at as int, end as int) == Some((kind, next as int))
                &&& at < next <= end
            },
            None => kind_at(bytes@, at as int, end as int) is None,
        },
{
    if at >= end {
        return None;
    }
    match read_number(bytes, at + 1, end) {
        None => None,
        Some((_, next)) => Some((bytes[at], next)),
    }
}

fn has_bracket(bytes: &Vec<u8>, from: usize, to: usize) -> (r: bool)
    requires
        from <= to <= bytes@.len(),
    ensures
        r == bytes@.subrange(from as int, to as int).contains(BRACKET),
{
    let ghost name = bytes@.subrange(from as int, to as int);
    let mut i: usize = from;
    while i < to
        invariant
            from <= i <= to <= bytes@.len(),
            name == bytes@.subrange(from as int, to as int),
            forall|j: int| 0 <= j < i - from ==> name[j] != BRACKET,
        decreases to - i,
    {
        if bytes[i] == BRACKET {
            proof {
                assert(name[i - from] == BRACKET);
            }
            return true;
        }
        i = i + 1;
    }
    false
}

fn begins_with(bytes: &Vec<u8>, from: usize, to: usize, prefix: &[u8]) -> (r: bool)
    requires
        from <= to <= bytes@.len(),
    ensures
        r == prefix@.is_prefix_of(bytes@.subrange(from as int, to as int)),
{
    let ghost name = bytes@.subrange(from as int, to as int);
    if prefix.len() > to - from {
        return false;
    }
    let mut i: usize = 0;
    while i < prefix.len()
        invariant
            i <= prefix@.len() <= to - from,
            from <= to <= bytes@.len(),
            name == bytes@.subrange(from as int, to as int),
            forall|j: int| 0 <= j < i ==> name[j] == prefix@[j],
        decreases prefix@.len() - i,
    {
        if bytes[from + i] != prefix[i] {
            proof {
                assert(name.subrange(0, prefix@.len() as int)[i as int] != prefix@[i as int]);
            }
            return false;
        }
        i = i + 1;
    }
    proof {
        assert(name.subrange(0, prefix@.len() as int) =~= prefix@);
    }
    true
}

fn check_imports(bytes: &Vec<u8>, at: usize, end: usize, n: usize) -> (r: bool)
    requires
        end <= bytes@.len(),
    ensures
        r == own_imports(bytes@, at as int, end as int, n as nat),
{
    let host: [u8; 6] = [0x63, 0x6d, 0x33, 0x32, 0x70, 0x32];
    proof {
        assert(host@ =~= host_module());
    }
    let mut left: usize = n;
    let mut p: usize = at;
    while left > 0
        invariant
            end <= bytes@.len(),
            host@ == host_module(),
            own_imports(bytes@, at as int, end as int, n as nat) == own_imports(
                bytes@,
                p as int,
                end as int,
                left as nat,
            ),
        decreases left,
    {
        let (from, to): (usize, usize) = match read_name(bytes, p, end) {
            None => return false,
            Some(x) => x,
        };
        let (name, behind): (usize, usize) = match read_name(bytes, to, end) {
            None => return false,
            Some(x) => x,
        };
        let (kind, next): (u8, usize) = match read_kind(bytes, behind, end) {
            None => return false,
            Some(x) => x,
        };
        let ghost module = bytes@.subrange(from as int, to as int);
        proof {
            assert(module == host_module() <==> module.len() == 6 && host_module().is_prefix_of(
                module,
            )) by {
                if module.len() == 6 && host_module().is_prefix_of(module) {
                    assert(module.subrange(0, 6) =~= module);
                } else if module == host_module() {
                    assert(module.subrange(0, 6) =~= module);
                }
            }
        }
        if to - from != 6 || !begins_with(bytes, from, to, host.as_slice()) || has_bracket(
            bytes,
            name,
            behind,
        ) || kind != 0 {
            return false;
        }
        p = next;
        left = left - 1;
    }
    true
}

fn check_exports(bytes: &Vec<u8>, at: usize, end: usize, n: usize) -> (r: bool)
    requires
        end <= bytes@.len(),
    ensures
        r == own_exports(bytes@, at as int, end as int, n as nat),
{
    let host: [u8; 6] = [0x63, 0x6d, 0x33, 0x32, 0x70, 0x32];
    proof {
        assert(host@ =~= host_module());
    }
    let mut left: usize = n;
    let mut p: usize = at;
    while left > 0
        invariant
            end <= bytes@.len(),
            host@ == host_module(),
            own_exports(bytes@, at as int, end as int, n as nat) == own_exports(
                bytes@,
                p as int,
                end as int,
                left as nat,
            ),
        decreases left,
    {
        let (from, to): (usize, usize) = match read_name(bytes, p, end) {
            None => return false,
            Some(x) => x,
        };
        let (_, next): (u8, usize) = match read_kind(bytes, to, end) {
            None => return false,
            Some(x) => x,
        };
        if begins_with(bytes, from, to, host.as_slice()) || has_bracket(bytes, from, to) {
            return false;
        }
        p = next;
        left = left - 1;
    }
    true
}

fn check_section(bytes: &Vec<u8>, id: u8, at: usize, end: usize) -> (r: bool)
    requires
        end <= bytes@.len(),
    ensures
        r == own_section(bytes@, id, at as int, end as int),
{
    if id == 0 {
        let prefix: [u8; 14] = [
            0x63, 0x6f, 0x6d, 0x70, 0x6f, 0x6e, 0x65, 0x6e, 0x74, 0x2d, 0x74, 0x79, 0x70, 0x65,
        ];
        proof {
            assert(prefix@ =~= description_prefix());
        }
        match read_name(bytes, at, end) {
            None => false,
            Some((from, to)) => !begins_with(bytes, from, to, prefix.as_slice()),
        }
    } else if id == 2 {
        match read_number(bytes, at, end) {
            None => false,
            Some((n, p)) => check_imports(bytes, p, end, n),
        }
    } else if id == 7 {
        match read_number(bytes, at, end) {
            None => false,
            Some((n, p)) => check_exports(bytes, p, end, n),
        }
    } else {
        true
    }
}

/// Whether bytes carry only what the core modules of this library carry.
pub fn carries_only_own(bytes: &Vec<u8>) -> (r: bool)
    ensures
        r == is_own(bytes@),
{
    let header: [u8; 8] = [0x00, 0x61, 0x73, 0x6D, 0x01, 0x00, 0x00, 0x00];
    proof {
        assert(header@ =~= crate::encode::module_header());
    }
    let mut i: usize = 0;
    while i < 8 && i < bytes.len()
        invariant
            i <= 8,
            i <= bytes@.len(),
            header@ == crate::encode::module_header(),
            forall|j: int| 0 <= j < i ==> bytes@[j] == crate::encode::module_header()[j],
        decreases 8 - i,
    {
        if bytes[i] != header[i] {
            proof {
                if bytes@.is_prefix_of(crate::encode::module_header()) {
                    assert(crate::encode::module_header().subrange(0, bytes@.len() as int)[i as int]
                        == crate::encode::module_header()[i as int]);
                }
                if crate::encode::module_header().is_prefix_of(bytes@) {
                    assert(bytes@.subrange(0, 8)[i as int] == bytes@[i as int]);
                }
            }
            return true;
        }
        i = i + 1;
    }
    proof {
        if bytes@.len() < 8 {
            assert(crate::encode::module_header().subrange(0, bytes@.len() as int) =~= bytes@);
        } else {
            assert(bytes@.subrange(0, 8) =~= crate::encode::module_header());
        }
    }
    if bytes.len() < 8 {
        return false;
    }
    let mut at: usize = 8;
    while at < bytes.len()
        invariant
            8 <= at <= bytes@.len(),
            begins_as_module(bytes@),
            own_sections(bytes@, 8) == own_sections(bytes@, at as int),
        decreases bytes@.len() - at,
    {
        match read_number(bytes, at + 1, bytes.len()) {
            None => return false,
            Some((n, p)) => {
                if n > bytes.len() - p || !check_section(bytes, bytes[at], p, p + n) {
                    return false;
                }
                at = p + n;
            },
        }
    }
    true
}

} // verus!
