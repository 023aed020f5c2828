//! Identifier rewriting shared by the WIT emitter and the core-module
//! exporter, so both sides agree on every name.

use vstd::prelude::*;

verus! {

/// `String::push` appends one character.
pub assume_specification[ std::string::String::push ](s: &mut std::string::String, c: char)
    ensures
        final(s)@ == old(s)@.push(c),
;

/// Whether `c` is an ASCII capital.
pub open spec fn is_capital(c: char) -> bool {
    'A' <= c && c <= 'Z'
}

/// The small letter of an ASCII capital.
pub open spec fn small(c: char) -> char {
    (c as u32 + 32) as char
}

/// Whether `c` separates words: an underscore or a colon.
pub open spec fn is_separator(c: char) -> bool {
    c == '_' || c == ':'
}

/// `done` with a hyphen behind it, unless it is empty or has one already.
pub open spec fn hyphenated(done: Seq<char>) -> Seq<char> {
    if done.len() == 0 || done.last() == '-' {
        done
    } else {
        done.push('-')
    }
}

/// Append the rewriting of one character.
pub open spec fn kebab_step(done: Seq<char>, c: char) -> Seq<char> {
    if is_capital(c) {
        hyphenated(done).push(small(c))
    } else if is_separator(c) {
        hyphenated(done)
    } else {
        done.push(c)
    }
}

/// The lower-kebab-case form of a name: a capital starts a new word, runs
/// of separators become one hyphen, every other character stays.
pub open spec fn kebab(name: Seq<char>) -> Seq<char>
    decreases name.len(),
{
    if name.len() == 0 {
        Seq::empty()
    } else {
        kebab_step(kebab(name.drop_last()), name.last())
    }
}

/// The small letter of a capital.
fn lower_ascii(c: char) -> (r: char)
    requires
        is_capital(c),
    ensures
        r == small(c),
{
    (c as u8 + 32u8) as char
}

/// Whether `name` begins with `prefix`.
pub fn has_prefix(name: &str, prefix: &str) -> (r: bool)
    ensures
        r == prefix@.is_prefix_of(name@),
{
    let n: usize = prefix.unicode_len();
    if n > name.unicode_len() {
        return false;
    }
    let mut i: usize = 0;
    while i < n
        invariant
            n == prefix@.len(),
            n <= name@.len(),
            i <= n,
            forall|k: int| 0 <= k < i ==> prefix@[k] == name@[k],
        decreases n - i,
    {
        if prefix.get_char(i) != name.get_char(i) {
            proof {
                assert(name@.subrange(0, n as int)[i as int] != prefix@[i as int]);
            }
            return false;
        }
        i = i + 1;
    }
    proof {
        assert(prefix@ =~= name@.subrange(0, n as int));
    }
    true
}

/// Convert a name to lower-kebab-case: `MyType` gives `my-type`,
/// `XMLParser` gives `x-m-l-parser`, `my_helper` gives `my-helper` and
/// `colors::Rgb` gives `colors-rgb`.
pub fn kebab_case(name: &str) -> (out: String)
    ensures
        out@ == kebab(name@),
{
    let mut out: String = String::new();
    let mut ends_in_hyphen: bool = false;
    let n: usize = name.unicode_len();
    let mut i: usize = 0;
    while i < n
        invariant
            n == name@.len(),
            i <= n,
            out@ == kebab(name@.take(i as int)),
            ends_in_hyphen == (out@.len() > 0 && out@.last() == '-'),
        decreases n - i,
    {
        let c: char = name.get_char(i);
        proof {
            assert(name@.take(i as int + 1).drop_last() =~= name@.take(i as int));
            assert(name@.take(i as int + 1).last() == c);
        }
        if 'A' <= c && c <= 'Z' {
            if !out.as_str().is_empty() && !ends_in_hyphen {
                out.push('-');
            }
            out.push(lower_ascii(c));
            ends_in_hyphen = false;
        } else if c == '_' || c == ':' {
            if !out.as_str().is_empty() && !ends_in_hyphen {
                out.push('-');
                ends_in_hyphen = true;
            }
        } else {
            out.push(c);
            ends_in_hyphen = c == '-';
        }
        i = i + 1;
    }
    proof {
        assert(name@.take(n as int) =~= name@);
    }
    out
}

/// Whether a name needs no rewriting.
pub open spec fn is_kebab(name: Seq<char>) -> bool {
    forall|i: int|
        0 <= i < name.len() ==> !is_capital(#[trigger] name[i]) && !is_separator(name[i])
}

/// The rewriting leaves no capitals, underscores or colons.
pub proof fn law_kebab_has_no_capitals_or_separators(name: Seq<char>)
    ensures
        is_kebab(kebab(name)),
    decreases name.len(),
{
    if name.len() > 0 {
        law_kebab_has_no_capitals_or_separators(name.drop_last());
        let done = kebab(name.drop_last());
        let c = name.last();
        assert(is_kebab(hyphenated(done)));
        if is_capital(c) {
            assert(!is_capital(small(c)) && !is_separator(small(c)));
        }
    }
}

/// A name without capitals and separators is its own rewriting.
pub proof fn law_kebab_keeps_plain_names(name: Seq<char>)
    requires
        is_kebab(name),
    ensures
        kebab(name) == name,
    decreases name.len(),
{
    if name.len() > 0 {
        assert forall|i: int| 0 <= i < name.drop_last().len() implies !is_capital(
            #[trigger] name.drop_last()[i],
        ) && !is_separator(name.drop_last()[i]) by {
            assert(name.drop_last()[i] == name[i]);
        }
        law_kebab_keeps_plain_names(name.drop_last());
        assert(!is_capital(name[name.len() - 1]));
        assert(name.drop_last().push(name.last()) =~= name);
    } else {
        assert(name =~= Seq::empty());
    }
}

/// Rewriting twice is rewriting once.
pub proof fn law_kebab_is_idempotent(name: Seq<char>)
    ensures
        kebab(kebab(name)) == kebab(name),
{
    law_kebab_has_no_capitals_or_separators(name);
    law_kebab_keeps_plain_names(kebab(name));
}

/// A name without hyphens of its own gets no leading hyphen and no two
/// hyphens in a row.
pub proof fn law_kebab_hyphens_are_single(name: Seq<char>)
    requires
        forall|i: int| 0 <= i < name.len() ==> #[trigger] name[i] != '-',
    ensures
        kebab(name).len() > 0 ==> kebab(name)[0] != '-',
        forall|i: int, j: int|
            0 <= i && j == i + 1 && j < kebab(name).len() ==> !(#[trigger] kebab(name)[i] == '-'
                && #[trigger] kebab(name)[j] == '-'),
    decreases name.len(),
{
    if name.len() > 0 {
        assert forall|i: int| 0 <= i < name.drop_last().len() implies #[trigger] name.drop_last()[i]
            != '-' by {
            assert(name.drop_last()[i] == name[i]);
        }
        law_kebab_hyphens_are_single(name.drop_last());
        let done = kebab(name.drop_last());
        let c = name.last();
        assert(c == name[name.len() - 1]);
        assert(c != '-');
        if is_capital(c) {
            assert(small(c) != '-');
        }
    }
}

} // verus!
