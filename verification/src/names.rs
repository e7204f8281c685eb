//! Identifier handling: suffix tests on names read from an artifact, the
//! Rust-style capitalization of object names, and the derivation of an
//! object name from an artifact file name.

use vstd::prelude::*;
use vstd::string::*;

verus! {

/// `s` ends with `suffix`.
pub open spec fn seq_ends_with(s: Seq<char>, suffix: Seq<char>) -> bool {
    s.len() >= suffix.len() && s.subrange(s.len() - suffix.len(), s.len() as int)
        == suffix
}

/// Character-wise suffix test on string slices.
pub fn str_ends_with(s: &str, suffix: &str) -> (r: bool)
    ensures
        r == seq_ends_with(s@, suffix@),
{
    let n = s.unicode_len();
    let m = suffix.unicode_len();
    if m > n {
        return false;
    }
    let mut i: usize = 0;
    while i < m
        invariant
            m <= n,
            n == s@.len(),
            m == suffix@.len(),
            0 <= i <= m,
            forall|j: int| 0 <= j < i ==> s@[n - m + j] == suffix@[j],
        decreases m - i,
    {
        if s.get_char(n - m + i) != suffix.get_char(i) {
            assert(s@.subrange(s@.len() - suffix@.len(), s@.len() as int)[i as int]
                == s@[n - m + i]);
            return false;
        }
        i = i + 1;
    }
    assert(s@.subrange(s@.len() - suffix@.len(), s@.len() as int) =~= suffix@);
    true
}

/// The Unicode uppercase mapping of one character, a function of the
/// character alone.
pub uninterp spec fn upper_of(c: char) -> Seq<char>;

/// Relies on char::to_uppercase from std: yields the uppercase mapping of
/// the character, which depends on the character alone.
#[verifier::external_body]
fn uppercase_char(c: char) -> (r: String)
    ensures
        r@ == upper_of(c),
{
    c.to_uppercase().to_string()
}

/// Capitalization of the tail of a name: underscores separate segments and
/// are dropped, and the first character after each boundary is uppercased.
pub open spec fn spec_capitalize_from(s: Seq<char>, boundary: bool) -> Seq<char>
    decreases s.len(),
{
    if s.len() == 0 {
        Seq::empty()
    } else if s[0] == '_' {
        spec_capitalize_from(s.skip(1), true)
    } else if boundary {
        upper_of(s[0]) + spec_capitalize_from(s.skip(1), false)
    } else {
        seq![s[0]] + spec_capitalize_from(s.skip(1), false)
    }
}

/// The Rust-style type-name form of an object name: each underscore-separated
/// segment is capitalized and the underscores are dropped.
pub open spec fn spec_capitalize(s: Seq<char>) -> Seq<char> {
    spec_capitalize_from(s, true)
}

/// Turns an object name into the name used for its generated binding types:
/// `"count_packets"` becomes `"CountPackets"`.
pub fn capitalize_first_letter(s: &str) -> (r: String)
    ensures
        r@ == spec_capitalize(s@),
{
    let n = s.unicode_len();
    let mut r = String::new();
    let mut boundary = true;
    let mut i: usize = 0;
    assert(s@.skip(0) =~= s@);
    while i < n
        invariant
            n == s@.len(),
            0 <= i <= n,
            spec_capitalize(s@) == r@ + spec_capitalize_from(s@.skip(i as int), boundary),
        decreases n - i,
    {
        let ghost prev = r@;
        let ghost rest = s@.skip(i as int);
        assert(rest[0] == s@[i as int]);
        assert(rest.skip(1) =~= s@.skip(i + 1));
        let c = s.get_char(i);
        if c == '_' {
            boundary = true;
        } else if boundary {
            let up = uppercase_char(c);
            r.append(up.as_str());
            boundary = false;
            assert(prev + (upper_of(c) + spec_capitalize_from(s@.skip(i + 1), false))
                =~= r@ + spec_capitalize_from(s@.skip(i + 1), false));
        } else {
            let piece = s.substring_char(i, i + 1);
            assert(piece@ =~= seq![s@[i as int]]);
            r.append(piece);
            assert(prev + (seq![s@[i as int]] + spec_capitalize_from(s@.skip(i + 1), false))
                =~= r@ + spec_capitalize_from(s@.skip(i + 1), false));
        }
        i = i + 1;
    }
    assert(s@.skip(n as int) =~= Seq::<char>::empty());
    assert(r@ + Seq::<char>::empty() =~= r@);
    r
}

/// The part of a name before its first `'.'` (the whole name when it holds
/// no `'.'`).
pub open spec fn spec_before_dot(s: Seq<char>) -> Seq<char>
    decreases s.len(),
{
    if s.len() == 0 {
        s
    } else if s[0] == '.' {
        Seq::empty()
    } else {
        seq![s[0]] + spec_before_dot(s.skip(1))
    }
}

proof fn lemma_before_dot_prefix(s: Seq<char>, i: int)
    requires
        0 <= i <= s.len(),
        forall|j: int| 0 <= j < i ==> s[j] != '.',
        i == s.len() || s[i] == '.',
    ensures
        spec_before_dot(s) == s.take(i),
    decreases i,
{
    if i == 0 {
        assert(s.take(0) =~= Seq::<char>::empty());
        if s.len() != 0 {
            assert(s[0] == '.');
        }
    } else {
        assert(s[0] != '.');
        lemma_before_dot_prefix(s.skip(1), i - 1);
        assert(seq![s[0]] + s.skip(1).take(i - 1) =~= s.take(i));
    }
}

/// The object name that a `.o` artifact file name yields: `None` when the
/// file name does not end in `.o`, else the part before the first `'.'`
/// (so `"probe.bpf.o"` yields `"probe"`).
pub open spec fn spec_object_file_stem(f: Seq<char>) -> Option<Seq<char>> {
    if seq_ends_with(f, ".o"@) {
        Some(spec_before_dot(f))
    } else {
        None
    }
}

/// Derives the object name from an artifact file name.
pub fn object_file_stem(filename: &str) -> (r: Option<String>)
    ensures
        match r {
            Some(n) => spec_object_file_stem(filename@) == Some(n@),
            None => spec_object_file_stem(filename@) is None,
        },
{
    if !str_ends_with(filename, ".o") {
        return None;
    }
    let n = filename.unicode_len();
    let mut i: usize = 0;
    while i < n
        invariant
            n == filename@.len(),
            0 <= i <= n,
            seq_ends_with(filename@, ".o"@),
            forall|j: int| 0 <= j < i ==> filename@[j] != '.',
        decreases n - i,
    {
        if filename.get_char(i) == '.' {
            proof {
                lemma_before_dot_prefix(filename@, i as int);
            }
            let stem = filename.substring_char(0, i);
            assert(stem@ =~= filename@.take(i as int));
            return Some(stem.to_owned());
        }
        i = i + 1;
    }
    proof {
        lemma_before_dot_prefix(filename@, n as int);
    }
    let stem = filename.substring_char(0, n);
    assert(stem@ =~= filename@.take(n as int));
    Some(stem.to_owned())
}

} // verus!
