//! Settings read from environment variables: booleans, counts and
//! identifiers, each with surrounding whitespace ignored and a default for
//! a missing or unreadable value. The caller reads the variable; these
//! functions decide what its text means.

use vstd::prelude::*;
use crate::names::chars_of;
use crate::files::{parse_u64, spec_parse_u64};

verus! {

/// Unicode `White_Space`, the characters that `char::is_whitespace`
/// accepts and `str::trim` removes.
pub open spec fn is_unicode_whitespace(c: char) -> bool {
    ||| ('\u{9}' <= c && c <= '\u{D}')
    ||| c == ' '
    ||| c == '\u{85}'
    ||| c == '\u{A0}'
    ||| c == '\u{1680}'
    ||| ('\u{2000}' <= c && c <= '\u{200A}')
    ||| c == '\u{2028}'
    ||| c == '\u{2029}'
    ||| c == '\u{202F}'
    ||| c == '\u{205F}'
    ||| c == '\u{3000}'
}

/// `s` without its leading whitespace.
pub open spec fn trim_start(s: Seq<char>) -> Seq<char>
    decreases s.len(),
{
    if s.len() > 0 && is_unicode_whitespace(s[0]) {
        trim_start(s.drop_first())
    } else {
        s
    }
}

/// `s` without its trailing whitespace.
pub open spec fn trim_end(s: Seq<char>) -> Seq<char>
    decreases s.len(),
{
    if s.len() > 0 && is_unicode_whitespace(s.last()) {
        trim_end(s.drop_last())
    } else {
        s
    }
}

/// `s` without leading and trailing whitespace, as `str::trim` gives it.
pub open spec fn spec_trim(s: Seq<char>) -> Seq<char> {
    trim_end(trim_start(s))
}

/// The ASCII lowercase of a character, other characters unchanged.
pub open spec fn ascii_lower(c: char) -> char {
    if 'A' <= c && c <= 'Z' {
        ((c as int) + 32) as char
    } else {
        c
    }
}

/// The words accepted as `true`: `1`, `true`, `yes`, `on`.
pub open spec fn is_true_word(w: Seq<char>) -> bool {
    ||| w == seq!['1']
    ||| w == seq!['t', 'r', 'u', 'e']
    ||| w == seq!['y', 'e', 's']
    ||| w == seq!['o', 'n']
}

/// The words accepted as `false`: `0`, `false`, `no`, `off`.
pub open spec fn is_false_word(w: Seq<char>) -> bool {
    ||| w == seq!['0']
    ||| w == seq!['f', 'a', 'l', 's', 'e']
    ||| w == seq!['n', 'o']
    ||| w == seq!['o', 'f', 'f']
}

/// The boolean a setting denotes: its trimmed, ASCII-lowercased text must
/// be one of the accepted words; anything else, or no value, gives the
/// default.
pub open spec fn spec_bool_setting(value: Option<Seq<char>>, default: bool) -> bool {
    match value {
        Some(v) => {
            let w = spec_trim(v).map_values(|c: char| ascii_lower(c));
            if is_true_word(w) {
                true
            } else if is_false_word(w) {
                false
            } else {
                default
            }
        },
        None => default,
    }
}

/// The `u64` a setting denotes: its trimmed text parsed as `str::parse`
/// does, or the default.
pub open spec fn spec_u64_setting(value: Option<Seq<char>>, default: u64) -> u64 {
    match value {
        Some(v) => match spec_parse_u64(spec_trim(v)) {
            Some(n) => n,
            None => default,
        },
        None => default,
    }
}

/// The `usize` a setting denotes: its trimmed text parsed as `str::parse`
/// does, or the default.
pub open spec fn spec_usize_setting(value: Option<Seq<char>>, default: usize) -> usize {
    match value {
        Some(v) => match spec_parse_u64(spec_trim(v)) {
            Some(n) => if n <= usize::MAX {
                n as usize
            } else {
                default
            },
            None => default,
        },
        None => default,
    }
}

fn is_whitespace(c: char) -> (res: bool)
    ensures
        res == is_unicode_whitespace(c),
{
    ('\u{9}' <= c && c <= '\u{D}') || c == ' ' || c == '\u{85}' || c == '\u{A0}' || c == '\u{1680}'
        || ('\u{2000}' <= c && c <= '\u{200A}') || c == '\u{2028}' || c == '\u{2029}' || c
        == '\u{202F}' || c == '\u{205F}' || c == '\u{3000}'
}

proof fn lemma_trim_start_skip(s: Seq<char>, a: int)
    requires
        0 <= a <= s.len(),
        forall|k: int| 0 <= k < a ==> is_unicode_whitespace(#[trigger] s[k]),
    ensures
        trim_start(s) == trim_start(s.subrange(a, s.len() as int)),
    decreases a,
{
    if a > 0 {
        assert(is_unicode_whitespace(s[0]));
        let t = s.drop_first();
        assert forall|k: int| 0 <= k < a - 1 implies is_unicode_whitespace(#[trigger] t[k]) by {
            assert(t[k] == s[k + 1]);
        }
        lemma_trim_start_skip(t, a - 1);
        assert(t.subrange(a - 1, t.len() as int) =~= s.subrange(a, s.len() as int));
    } else {
        assert(s.subrange(0, s.len() as int) =~= s);
    }
}

proof fn lemma_trim_end_skip(s: Seq<char>, b: int)
    requires
        0 <= b <= s.len(),
        forall|k: int| b <= k < s.len() ==> is_unicode_whitespace(#[trigger] s[k]),
    ensures
        trim_end(s) == trim_end(s.subrange(0, b)),
    decreases s.len() - b,
{
    if b < s.len() {
        assert(is_unicode_whitespace(s[s.len() - 1]));
        let t = s.drop_last();
        assert forall|k: int| b <= k < t.len() implies is_unicode_whitespace(#[trigger] t[k]) by {
            assert(t[k] == s[k]);
        }
        lemma_trim_end_skip(t, b);
        assert(t.subrange(0, b) =~= s.subrange(0, b));
    } else {
        assert(s.subrange(0, b) =~= s);
    }
}

/// The characters of `s` without leading and trailing whitespace.
pub fn trim(s: &Vec<char>) -> (res: Vec<char>)
    ensures
        res@ == spec_trim(s@),
{
    let mut a: usize = 0;
    while a < s.len() && is_whitespace(s[a])
        invariant
            a <= s.len(),
            forall|k: int| 0 <= k < a ==> is_unicode_whitespace(#[trigger] s@[k]),
        decreases s.len() - a,
    {
        a = a + 1;
    }
    proof {
        lemma_trim_start_skip(s@, a as int);
    }
    let ghost rest = s@.subrange(a as int, s@.len() as int);
    assert(rest.len() == 0 || !is_unicode_whitespace(rest[0]));
    assert(trim_start(rest) == rest);
    let mut b: usize = s.len();
    while b > a && is_whitespace(s[b - 1])
        invariant
            a <= b <= s.len(),
            forall|k: int| b <= k < s.len() ==> is_unicode_whitespace(#[trigger] s@[k]),
        decreases b - a,
    {
        b = b - 1;
    }
    let ghost r = rest;
    proof {
        assert forall|k: int| b - a <= k < r.len() implies is_unicode_whitespace(#[trigger] r[k]) by {
            assert(r[k] == s@[k + a]);
        }
        lemma_trim_end_skip(r, b - a);
        let m = r.subrange(0, b - a);
        assert(m.len() == 0 || !is_unicode_whitespace(m.last())) by {
            if m.len() > 0 {
                assert(m.last() == s@[b - 1]);
            }
        }
        assert(trim_end(m) == m);
    }
    let mut out: Vec<char> = Vec::new();
    let mut k: usize = a;
    while k < b
        invariant
            a <= k <= b,
            b <= s.len(),
            out@ == s@.subrange(a as int, k as int),
        decreases b - k,
    {
        out.push(s[k]);
        k = k + 1;
        assert(out@ =~= s@.subrange(a as int, k as int));
    }
    assert(r.subrange(0, b - a) =~= s@.subrange(a as int, b as int));
    out
}

/// The ASCII lowercase of a character sequence.
pub fn to_ascii_lower(s: &Vec<char>) -> (res: Vec<char>)
    ensures
        res@ == s@.map_values(|c: char| ascii_lower(c)),
{
    let mut out: Vec<char> = Vec::new();
    let mut k: usize = 0;
    while k < s.len()
        invariant
            k <= s.len(),
            out@ == s@.take(k as int).map_values(|c: char| ascii_lower(c)),
        decreases s.len() - k,
    {
        let c = s[k];
        let l = if 'A' <= c && c <= 'Z' {
            ((c as u32) + 32) as u8 as char
        } else {
            c
        };
        assert(l == ascii_lower(c)) by {
            if 'A' <= c && c <= 'Z' {
                assert(((c as u32) + 32) as u8 as char == ((c as int) + 32) as char);
            }
        }
        out.push(l);
        k = k + 1;
        assert(out@ =~= s@.take(k as int).map_values(|c: char| ascii_lower(c)));
    }
    assert(s@.take(s.len() as int) =~= s@);
    out
}

fn equals_chars(a: &Vec<char>, b: &Vec<char>) -> (res: bool)
    ensures
        res == (a@ == b@),
{
    if a.len() != b.len() {
        return false;
    }
    let mut k: usize = 0;
    while k < a.len()
        invariant
            a.len() == b.len(),
            k <= a.len(),
            forall|j: int| 0 <= j < k ==> a@[j] == b@[j],
        decreases a.len() - k,
    {
        if a[k] != b[k] {
            return false;
        }
        k = k + 1;
    }
    assert(a@ =~= b@);
    true
}

/// Reads a boolean setting: `1`, `true`, `yes` or `on` give `true`, `0`,
/// `false`, `no` or `off` give `false`, in any ASCII case and with
/// surrounding whitespace; anything else, or no value, gives `default`.
pub fn parse_bool_setting(value: Option<&str>, default: bool) -> (res: bool)
    ensures
        res == spec_bool_setting(
            match value {
                Some(v) => Some(v@),
                None => None,
            },
            default,
        ),
{
    match value {
        None => default,
        Some(v) => {
            let chars = chars_of(v);
            let w = to_ascii_lower(&trim(&chars));
            let one = vec!['1'];
            let true_word = vec!['t', 'r', 'u', 'e'];
            let yes = vec!['y', 'e', 's'];
            let on = vec!['o', 'n'];
            let zero = vec!['0'];
            let false_word = vec!['f', 'a', 'l', 's', 'e'];
            let no = vec!['n', 'o'];
            let off = vec!['o', 'f', 'f'];
            assert(one@ =~= seq!['1']);
            assert(true_word@ =~= seq!['t', 'r', 'u', 'e']);
            assert(yes@ =~= seq!['y', 'e', 's']);
            assert(on@ =~= seq!['o', 'n']);
            assert(zero@ =~= seq!['0']);
            assert(false_word@ =~= seq!['f', 'a', 'l', 's', 'e']);
            assert(no@ =~= seq!['n', 'o']);
            assert(off@ =~= seq!['o', 'f', 'f']);
            if equals_chars(&w, &one) || equals_chars(&w, &true_word) || equals_chars(&w, &yes)
                || equals_chars(&w, &on) {
                true
            } else if equals_chars(&w, &zero) || equals_chars(&w, &false_word) || equals_chars(
                &w,
                &no,
            ) || equals_chars(&w, &off) {
                false
            } else {
                default
            }
        },
    }
}

/// Reads a `u64` setting: the trimmed text parsed as a decimal number, or
/// `default` when there is no value or it does not parse.
pub fn parse_u64_setting(value: Option<&str>, default: u64) -> (res: u64)
    ensures
        res == spec_u64_setting(
            match value {
                Some(v) => Some(v@),
                None => None,
            },
            default,
        ),
{
    match value {
        None => default,
        Some(v) => {
            let chars = chars_of(v);
            match parse_u64(&trim(&chars)) {
                Some(n) => n,
                None => default,
            }
        },
    }
}

/// Reads a `usize` setting: the trimmed text parsed as a decimal number, or
/// `default` when there is no value, it does not parse or it does not fit.
pub fn parse_usize_setting(value: Option<&str>, default: usize) -> (res: usize)
    ensures
        res == spec_usize_setting(
            match value {
                Some(v) => Some(v@),
                None => None,
            },
            default,
        ),
{
    match value {
        None => default,
        Some(v) => {
            let chars = chars_of(v);
            match parse_u64(&trim(&chars)) {
                Some(n) => {
                    if n <= usize::MAX as u64 {
                        n as usize
                    } else {
                        default
                    }
                },
                None => default,
            }
        },
    }
}

/// Keeps a text setting only when it holds something besides whitespace.
pub fn nonblank_setting(value: Option<String>) -> (res: Option<String>)
    ensures
        res == (match value {
            Some(v) => if spec_trim(v@).len() > 0 {
                Some(v)
            } else {
                None
            },
            None => None,
        }),
{
    match value {
        None => None,
        Some(v) => {
            let chars = chars_of(v.as_str());
            let t = trim(&chars);
            if t.len() > 0 {
                Some(v)
            } else {
                None
            }
        },
    }
}

} // verus!
