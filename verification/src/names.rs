//! File-system names: sanitising identifiers and naming recorded frames.

use vstd::prelude::*;

verus! {

/// Characters kept as they are in a file-system name: ASCII letters and
/// digits, `-`, `_` and `.`.
pub open spec fn is_path_safe_char(c: char) -> bool {
    ||| ('a' <= c && c <= 'z')
    ||| ('A' <= c && c <= 'Z')
    ||| ('0' <= c && c <= '9')
    ||| c == '-'
    ||| c == '_'
    ||| c == '.'
}

/// The character that stands for `c` in a sanitised name.
pub open spec fn sanitized_char(c: char) -> char {
    if is_path_safe_char(c) {
        c
    } else {
        '_'
    }
}

/// A name with every character outside the safe set replaced by `_`.
pub open spec fn spec_sanitize(s: Seq<char>) -> Seq<char> {
    s.map_values(|c: char| sanitized_char(c))
}

/// Sanitising keeps the length of a name, leaves a sanitised name as it
/// is, and produces only safe characters.
pub proof fn law_sanitize_is_idempotent(s: Seq<char>)
    ensures
        spec_sanitize(s).len() == s.len(),
        spec_sanitize(spec_sanitize(s)) == spec_sanitize(s),
        forall|k: int| 0 <= k < s.len() ==> is_path_safe_char(#[trigger] spec_sanitize(s)[k]),
{
    assert(spec_sanitize(spec_sanitize(s)) =~= spec_sanitize(s));
}

/// Names that would not stand for a directory entry of their own when
/// joined to a path: the empty name, `.` and `..`.
pub open spec fn is_special_component(s: Seq<char>) -> bool {
    s.len() == 0 || s == seq!['.'] || s == seq!['.', '.']
}

/// A name made safe to use as one path component: the special names become
/// `_`, every other name is sanitised character by character.
pub open spec fn spec_path_component(s: Seq<char>) -> Seq<char> {
    if is_special_component(s) {
        seq!['_']
    } else {
        spec_sanitize(s)
    }
}

/// Every path component made from a name is a normal one: it is not empty,
/// not `.` and not `..`, and holds only safe characters, so that joining it
/// to a directory names an entry inside that directory.
pub proof fn law_path_component_is_normal(s: Seq<char>)
    ensures
        !is_special_component(spec_path_component(s)),
        forall|k: int|
            0 <= k < spec_path_component(s).len() ==> is_path_safe_char(
                #[trigger] spec_path_component(s)[k],
            ),
{
    let t = spec_path_component(s);
    if is_special_component(s) {
        assert(t =~= seq!['_']);
        assert(t[0] != '.');
    } else {
        law_sanitize_is_idempotent(s);
        if t.len() == 1 && t[0] == '.' {
            assert(s[0] == '.');
            assert(s =~= seq!['.']);
        }
        if t.len() == 2 && t[0] == '.' && t[1] == '.' {
            assert(s[0] == '.' && s[1] == '.');
            assert(s =~= seq!['.', '.']);
        }
        assert(!(t =~= seq!['.']));
        assert(!(t =~= seq!['.', '.']));
    }
}

fn is_path_safe(c: char) -> (res: bool)
    ensures
        res == is_path_safe_char(c),
{
    ('a' <= c && c <= 'z') || ('A' <= c && c <= 'Z') || ('0' <= c && c <= '9') || c == '-' || c
        == '_' || c == '.'
}

/// Appends one character to a `String` (`String::push`).
#[verifier::external_body]
pub(crate) fn push_char(s: &mut String, c: char)
    ensures
        final(s)@ == old(s)@.push(c),
{
    s.push(c);
}

/// Replaces every character that is not an ASCII letter, an ASCII digit,
/// `-`, `_` or `.` by `_`, one for one.
pub fn sanitize_chars(value: &str) -> (res: String)
    ensures
        res@ == spec_sanitize(value@),
{
    let mut out = String::new();
    proof {
        broadcast use vstd::string::group_string_axioms;
    }
    for c in it: value.chars()
        invariant
            it.seq() == value@,
            out@ == spec_sanitize(value@.take(it.index() as int)),
    {
        assert(value@.take(it.index() + 1) == value@.take(it.index() as int).push(c));
        if is_path_safe(c) {
            push_char(&mut out, c);
        } else {
            push_char(&mut out, '_');
        }
    }
    assert(value@.take(value@.len() as int) == value@);
    out
}

/// Whether `p` is a prefix of `s`.
pub open spec fn has_prefix(s: Seq<char>, p: Seq<char>) -> bool {
    p.len() <= s.len() && s.subrange(0, p.len() as int) == p
}

/// Whether `p` is a suffix of `s`.
pub open spec fn has_suffix(s: Seq<char>, p: Seq<char>) -> bool {
    p.len() <= s.len() && s.subrange(s.len() - p.len(), s.len() as int) == p
}

/// The characters of a string, in order.
pub fn chars_of(value: &str) -> (res: Vec<char>)
    ensures
        res@ == value@,
{
    let mut out: Vec<char> = Vec::new();
    proof {
        broadcast use vstd::string::group_string_axioms;
    }
    for c in it: value.chars()
        invariant
            it.seq() == value@,
            out@ == value@.take(it.index() as int),
    {
        assert(value@.take(it.index() + 1) == value@.take(it.index() as int).push(c));
        out.push(c);
    }
    assert(value@.take(value@.len() as int) == value@);
    out
}

/// Whether `s[start..start + p.len()]` equals `p`.
pub fn matches_at(s: &Vec<char>, start: usize, p: &Vec<char>) -> (res: bool)
    requires
        start + p.len() <= s.len(),
    ensures
        res == (s@.subrange(start as int, start + p.len()) == p@),
{
    let mut k: usize = 0;
    while k < p.len()
        invariant
            start + p.len() <= s.len(),
            k <= p.len(),
            forall|j: int| 0 <= j < k ==> s@[start + j] == p@[j],
        decreases p.len() - k,
    {
        if s[start + k] != p[k] {
            assert(s@.subrange(start as int, start + p.len())[k as int] != p@[k as int]);
            return false;
        }
        k = k + 1;
    }
    assert(s@.subrange(start as int, start + p.len()) =~= p@);
    true
}

/// Whether `p` is a prefix of `s`.
pub fn starts_with_chars(s: &Vec<char>, p: &Vec<char>) -> (res: bool)
    ensures
        res == has_prefix(s@, p@),
{
    if p.len() > s.len() {
        false
    } else {
        matches_at(s, 0, p)
    }
}

/// Whether `p` is a suffix of `s`.
pub fn ends_with_chars(s: &Vec<char>, p: &Vec<char>) -> (res: bool)
    ensures
        res == has_suffix(s@, p@),
{
    if p.len() > s.len() {
        false
    } else {
        matches_at(s, s.len() - p.len(), p)
    }
}

} // verus!
