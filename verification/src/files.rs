//! Names of the files a recording session writes and reads back: frame
//! file stems, recovered PNG frames and their indices, and the extension
//! filters used when a directory is scanned.

use vstd::prelude::*;
use crate::names::{chars_of, ends_with_chars, has_prefix, has_suffix, push_char, starts_with_chars};

verus! {

/// Whether `c` is an ASCII decimal digit.
pub open spec fn is_digit(c: char) -> bool {
    '0' <= c && c <= '9'
}

/// The value of an ASCII decimal digit.
pub open spec fn digit_value(c: char) -> int {
    (c as int) - ('0' as int)
}

/// The character of a decimal digit `d < 10`.
pub open spec fn digit_char(d: int) -> char {
    (('0' as int) + d) as char
}

/// Whether every character of `s` is a decimal digit.
pub open spec fn all_digits(s: Seq<char>) -> bool {
    forall|k: int| 0 <= k < s.len() ==> #[trigger] is_digit(s[k])
}

/// The number that a string of decimal digits denotes.
pub open spec fn digits_value(s: Seq<char>) -> int
    decreases s.len(),
{
    if s.len() == 0 {
        0
    } else {
        10 * digits_value(s.drop_last()) + digit_value(s.last())
    }
}

/// The decimal digits of `n`, most significant first, without leading
/// zeros (`"0"` for zero).
pub open spec fn decimal(n: nat) -> Seq<char>
    decreases n,
{
    if n < 10 {
        seq![digit_char(n as int)]
    } else {
        decimal(n / 10).push(digit_char((n % 10) as int))
    }
}

/// The decimal digits of `n` with zeros in front up to `width` characters.
pub open spec fn zero_padded(n: nat, width: nat) -> Seq<char> {
    let d = decimal(n);
    if d.len() >= width {
        d
    } else {
        Seq::new((width - d.len()) as nat, |i: int| '0') + d
    }
}

/// What `str::parse::<u64>` gives for `s`: an optional `+`, then at least
/// one decimal digit, denoting a value that fits in `u64`.
pub open spec fn spec_parse_u64(s: Seq<char>) -> Option<u64> {
    let d = if s.len() > 0 && s[0] == '+' {
        s.drop_first()
    } else {
        s
    };
    if d.len() > 0 && all_digits(d) && digits_value(d) <= u64::MAX {
        Some(digits_value(d) as u64)
    } else {
        None
    }
}

/// `"frame_"`, the start of every frame file name.
pub open spec fn frame_prefix() -> Seq<char> {
    seq!['f', 'r', 'a', 'm', 'e', '_']
}

/// `".png"`.
pub open spec fn png_suffix() -> Seq<char> {
    seq!['.', 'p', 'n', 'g']
}

/// Whether a file name has extension `ext` (which holds no dot): it ends
/// with `.` and `ext`, and the part before that dot is not empty.
pub open spec fn spec_has_extension(name: Seq<char>, ext: Seq<char>) -> bool {
    name.len() > ext.len() + 1 && has_suffix(name, seq!['.'] + ext)
}

/// Whether a file name is that of a recovered frame: extension `png` and a
/// stem that starts with `frame_`.
pub open spec fn spec_is_recovered_frame_png(name: Seq<char>) -> bool {
    spec_has_extension(name, seq!['p', 'n', 'g']) && has_prefix(
        name.subrange(0, name.len() - 4),
        frame_prefix(),
    )
}

/// The frame index of a recovered frame name: `frame_`, a number that
/// `str::parse::<u64>` accepts, then `.png`.
pub open spec fn spec_recovered_frame_index(name: Seq<char>) -> Option<u64> {
    if spec_is_recovered_frame_png(name) {
        spec_parse_u64(name.subrange(6, name.len() - 4))
    } else {
        None
    }
}

/// Number of recovered frame names in a directory listing.
pub open spec fn spec_count_recovered(names: Seq<Seq<char>>) -> nat
    decreases names.len(),
{
    if names.len() == 0 {
        0
    } else {
        spec_count_recovered(names.drop_last()) + if spec_is_recovered_frame_png(names.last()) {
            1nat
        } else {
            0nat
        }
    }
}

/// The first frame index that no recovered frame in a directory listing
/// uses: one past the largest index (saturating at `u64::MAX`), or 0.
pub open spec fn spec_next_available_index(names: Seq<Seq<char>>) -> u64
    decreases names.len(),
{
    if names.len() == 0 {
        0
    } else {
        let rest = spec_next_available_index(names.drop_last());
        match spec_recovered_frame_index(names.last()) {
            Some(i) => {
                let next = if i == u64::MAX {
                    u64::MAX
                } else {
                    (i + 1) as u64
                };
                if next > rest {
                    next
                } else {
                    rest
                }
            },
            None => rest,
        }
    }
}

proof fn lemma_digits_value_nonneg(s: Seq<char>)
    requires
        all_digits(s),
    ensures
        digits_value(s) >= 0,
    decreases s.len(),
{
    if s.len() > 0 {
        assert(is_digit(s[s.len() - 1]));
        lemma_digits_value_nonneg(s.drop_last());
    }
}

proof fn lemma_digit_char(d: int)
    requires
        0 <= d < 10,
    ensures
        is_digit(digit_char(d)),
        digit_value(digit_char(d)) == d,
{
    assert((('0' as int) + d) as char as int == ('0' as int) + d);
}

proof fn lemma_decimal_digits(n: nat)
    ensures
        decimal(n).len() >= 1,
        all_digits(decimal(n)),
        digits_value(decimal(n)) == n,
    decreases n,
{
    let d = decimal(n);
    lemma_digit_char((n % 10) as int);
    vstd::arithmetic::div_mod::lemma_fundamental_div_mod(n as int, 10);
    if n < 10 {
        assert(d.drop_last() =~= Seq::<char>::empty());
        assert(d.last() == digit_char(n as int));
        assert(n % 10 == n);
        assert(digits_value(d) == 10 * digits_value(d.drop_last()) + digit_value(d.last()));
    } else {
        lemma_decimal_digits(n / 10);
        assert(d.drop_last() == decimal(n / 10));
        assert(d.last() == digit_char((n % 10) as int));
        assert(digits_value(d) == 10 * digits_value(d.drop_last()) + digit_value(d.last()));
        assert forall|k: int| 0 <= k < d.len() implies #[trigger] is_digit(d[k]) by {
            if k < d.len() - 1 {
                assert(d[k] == decimal(n / 10)[k]);
            }
        }
    }
}

/// Pushes the decimal digits of `n` onto `out`.
pub(crate) fn push_decimal(out: &mut Vec<char>, n: u64)
    ensures
        final(out)@ == old(out)@ + decimal(n as nat),
    decreases n,
{
    if n >= 10 {
        push_decimal(out, n / 10);
    }
    let d = (n % 10) as u32;
    let c = char_of_digit(d);
    out.push(c);
    proof {
        if n >= 10 {
            assert(decimal(n as nat) == decimal((n / 10) as nat).push(digit_char((n % 10) as int)));
        }
    }
}

fn char_of_digit(d: u32) -> (res: char)
    requires
        d < 10,
    ensures
        res == digit_char(d as int),
{
    if d == 0 {
        '0'
    } else if d == 1 {
        '1'
    } else if d == 2 {
        '2'
    } else if d == 3 {
        '3'
    } else if d == 4 {
        '4'
    } else if d == 5 {
        '5'
    } else if d == 6 {
        '6'
    } else if d == 7 {
        '7'
    } else if d == 8 {
        '8'
    } else {
        '9'
    }
}

/// Pushes `n` in decimal, with zeros in front up to `width` characters.
fn push_zero_padded(out: &mut Vec<char>, n: u64, width: usize)
    ensures
        final(out)@ == old(out)@ + zero_padded(n as nat, width as nat),
{
    let mut digits: Vec<char> = Vec::new();
    push_decimal(&mut digits, n);
    assert(digits@ =~= decimal(n as nat));
    let ghost start = out@;
    if digits.len() < width {
        let mut k: usize = 0;
        while k < width - digits.len()
            invariant
                digits.len() < width,
                k <= width - digits.len(),
                out@ == start + Seq::new(k as nat, |i: int| '0'),
            decreases width - digits.len() - k,
        {
            out.push('0');
            k = k + 1;
            assert(out@ =~= start + Seq::new(k as nat, |i: int| '0'));
        }
    }
    let ghost mid = out@;
    let mut j: usize = 0;
    while j < digits.len()
        invariant
            j <= digits.len(),
            out@ == mid + digits@.take(j as int),
        decreases digits.len() - j,
    {
        out.push(digits[j]);
        j = j + 1;
        assert(out@ =~= mid + digits@.take(j as int));
    }
    assert(digits@.take(digits.len() as int) =~= digits@);
    assert(out@ =~= start + zero_padded(n as nat, width as nat));
}

/// A `String` holding the characters of `chars`.
pub(crate) fn string_from_chars(chars: &Vec<char>) -> (res: String)
    ensures
        res@ == chars@,
{
    let mut out = String::new();
    let mut j: usize = 0;
    while j < chars.len()
        invariant
            j <= chars.len(),
            out@ == chars@.take(j as int),
        decreases chars.len() - j,
    {
        push_char(&mut out, chars[j]);
        j = j + 1;
        assert(out@ =~= chars@.take(j as int));
    }
    assert(chars@.take(chars.len() as int) =~= chars@);
    out
}

/// The stem under which a recorded frame's payload and metadata are
/// written: `frame_` and the index with at least four digits.
pub fn recorded_frame_stem(frame_index: u64) -> (res: String)
    ensures
        res@ == frame_prefix() + zero_padded(frame_index as nat, 4),
{
    let mut out: Vec<char> = Vec::new();
    push_frame_prefix(&mut out);
    push_zero_padded(&mut out, frame_index, 4);
    string_from_chars(&out)
}

/// The name of a recovered PNG frame: `frame_`, the index with at least six
/// digits, then `.png`.
pub fn recovered_png_name(frame_index: u64) -> (res: String)
    ensures
        res@ == frame_prefix() + zero_padded(frame_index as nat, 6) + png_suffix(),
{
    let mut out: Vec<char> = Vec::new();
    push_frame_prefix(&mut out);
    push_zero_padded(&mut out, frame_index, 6);
    out.push('.');
    out.push('p');
    out.push('n');
    out.push('g');
    assert(out@ =~= frame_prefix() + zero_padded(frame_index as nat, 6) + png_suffix());
    string_from_chars(&out)
}

fn push_frame_prefix(out: &mut Vec<char>)
    ensures
        final(out)@ == old(out)@ + frame_prefix(),
{
    out.push('f');
    out.push('r');
    out.push('a');
    out.push('m');
    out.push('e');
    out.push('_');
    assert(out@ =~= old(out)@ + frame_prefix());
}

/// Parses a decimal `u64` as `str::parse::<u64>` does: an optional `+`,
/// then one or more ASCII digits, rejected when the value overflows.
pub fn parse_u64(s: &Vec<char>) -> (res: Option<u64>)
    ensures
        res == spec_parse_u64(s@),
{
    let start: usize = if s.len() > 0 && s[0] == '+' {
        1
    } else {
        0
    };
    let ghost d = if s@.len() > 0 && s@[0] == '+' {
        s@.drop_first()
    } else {
        s@
    };
    assert(d =~= s@.subrange(start as int, s@.len() as int));
    if start >= s.len() {
        return None;
    }
    let mut acc: u64 = 0;
    let mut overflow = false;
    let mut i: usize = start;
    while i < s.len()
        invariant
            start <= i <= s.len(),
            d == s@.subrange(start as int, s@.len() as int),
            d == (if s@.len() > 0 && s@[0] == '+' {
                s@.drop_first()
            } else {
                s@
            }),
            all_digits(s@.subrange(start as int, i as int)),
            !overflow ==> acc == digits_value(s@.subrange(start as int, i as int)),
            overflow ==> digits_value(s@.subrange(start as int, i as int)) > u64::MAX,
        decreases s.len() - i,
    {
        let c = s[i];
        let ghost pre = s@.subrange(start as int, i as int);
        let ghost next = s@.subrange(start as int, i + 1);
        assert(next.drop_last() =~= pre);
        assert(next.last() == c);
        if !('0' <= c && c <= '9') {
            assert(!all_digits(d)) by {
                assert(d[i - start] == c);
                assert(!is_digit(d[i - start]));
            }
            return None;
        }
        proof {
            assert forall|k: int| 0 <= k < next.len() implies #[trigger] is_digit(next[k]) by {
                if k < pre.len() {
                    assert(next[k] == pre[k]);
                }
            }
            lemma_digits_value_nonneg(pre);
        }
        let digit = (c as u32 - '0' as u32) as u64;
        if !overflow {
            if acc > (u64::MAX - digit) / 10 {
                overflow = true;
                assert(10 * acc + digit > u64::MAX) by (nonlinear_arith)
                    requires
                        acc > (u64::MAX - digit) / 10,
                        digit <= 9,
                ;
            } else {
                assert(10 * acc + digit <= u64::MAX) by (nonlinear_arith)
                    requires
                        acc <= (u64::MAX - digit) / 10,
                        digit <= 9,
                ;
                acc = acc * 10 + digit;
            }
        }
        i = i + 1;
    }
    assert(s@.subrange(start as int, s@.len() as int) == d);
    if overflow {
        None
    } else {
        Some(acc)
    }
}

/// Whether a file name has extension `ext`, which holds no dot (as
/// `Path::extension` reads it).
pub fn has_extension(name: &Vec<char>, ext: &Vec<char>) -> (res: bool)
    requires
        ext.len() < usize::MAX,
    ensures
        res == spec_has_extension(name@, ext@),
{
    if name.len() <= ext.len() + 1 {
        return false;
    }
    let mut dotted: Vec<char> = Vec::new();
    dotted.push('.');
    let mut k: usize = 0;
    while k < ext.len()
        invariant
            k <= ext.len(),
            dotted@ == seq!['.'] + ext@.take(k as int),
        decreases ext.len() - k,
    {
        dotted.push(ext[k]);
        k = k + 1;
        assert(dotted@ =~= seq!['.'] + ext@.take(k as int));
    }
    assert(ext@.take(ext.len() as int) =~= ext@);
    ends_with_chars(name, &dotted)
}

/// Whether a file name is that of a recovered PNG frame.
pub fn is_recovered_frame_png(name: &Vec<char>) -> (res: bool)
    ensures
        res == spec_is_recovered_frame_png(name@),
{
    let png = vec!['p', 'n', 'g'];
    if !has_extension(name, &png) {
        return false;
    }
    let prefix = vec!['f', 'r', 'a', 'm', 'e', '_'];
    let mut stem: Vec<char> = Vec::new();
    let mut k: usize = 0;
    while k < name.len() - 4
        invariant
            name.len() > 4,
            k <= name.len() - 4,
            stem@ == name@.take(k as int),
        decreases name.len() - 4 - k,
    {
        stem.push(name[k]);
        k = k + 1;
        assert(stem@ =~= name@.take(k as int));
    }
    assert(stem@ =~= name@.subrange(0, name@.len() - 4));
    assert(prefix@ == frame_prefix());
    starts_with_chars(&stem, &prefix)
}

/// The frame index of a recovered PNG frame name, `None` for other names.
pub fn recovered_frame_index(name: &Vec<char>) -> (res: Option<u64>)
    ensures
        res == spec_recovered_frame_index(name@),
{
    if !is_recovered_frame_png(name) {
        return None;
    }
    let mut middle: Vec<char> = Vec::new();
    let mut k: usize = 6;
    while k < name.len() - 4
        invariant
            name.len() >= 10,
            6 <= k <= name.len() - 4,
            middle@ == name@.subrange(6, k as int),
        decreases name.len() - 4 - k,
    {
        middle.push(name[k]);
        k = k + 1;
        assert(middle@ =~= name@.subrange(6, k as int));
    }
    parse_u64(&middle)
}

/// Counts the recovered frame PNGs among a directory's file names.
pub fn count_recovered_pngs(names: &Vec<String>) -> (res: u64)
    requires
        names.len() <= u64::MAX,
    ensures
        res == spec_count_recovered(names@.map_values(|n: String| n@)),
{
    let ghost all = names@.map_values(|n: String| n@);
    let mut count: u64 = 0;
    let mut i: usize = 0;
    while i < names.len()
        invariant
            all == names@.map_values(|n: String| n@),
            i <= names.len(),
            names.len() <= u64::MAX,
            count == spec_count_recovered(all.take(i as int)),
            count <= i,
        decreases names.len() - i,
    {
        let name = chars_of(names[i].as_str());
        assert(all.take(i + 1).drop_last() =~= all.take(i as int));
        assert(all.take(i + 1).last() == names@[i as int]@);
        if is_recovered_frame_png(&name) {
            count = count + 1;
        }
        i = i + 1;
    }
    assert(all.take(names.len() as int) =~= all);
    count
}

/// How many frames a recovery run wrote: the recovered frame PNGs in the
/// output directory after the run minus those before it, `None` when the
/// run added none (a run that leaves the output as it was has failed).
pub fn recovered_frame_count(existing: u64, total: u64) -> (res: Option<u64>)
    ensures
        total > existing ==> res == Some((total - existing) as u64),
        total <= existing ==> res is None,
{
    let recovered = total.saturating_sub(existing);
    if recovered == 0 {
        None
    } else {
        Some(recovered)
    }
}

/// The first free frame index in a directory: one past the largest index
/// among its recovered frame PNGs (saturating), 0 when there is none.
pub fn next_available_frame_index(names: &Vec<String>) -> (res: u64)
    ensures
        res == spec_next_available_index(names@.map_values(|n: String| n@)),
{
    let ghost all = names@.map_values(|n: String| n@);
    let mut next_index: u64 = 0;
    let mut i: usize = 0;
    while i < names.len()
        invariant
            all == names@.map_values(|n: String| n@),
            i <= names.len(),
            next_index == spec_next_available_index(all.take(i as int)),
        decreases names.len() - i,
    {
        let name = chars_of(names[i].as_str());
        assert(all.take(i + 1).drop_last() =~= all.take(i as int));
        assert(all.take(i + 1).last() == names@[i as int]@);
        match recovered_frame_index(&name) {
            Some(index) => {
                let next = index.saturating_add(1);
                if next > next_index {
                    next_index = next;
                }
            },
            None => {},
        }
        i = i + 1;
    }
    assert(all.take(names.len() as int) =~= all);
    next_index
}

/// A recovered frame written under the index this chooses is never one of
/// the indices already present: every recovered frame in the listing has
/// an index below it, unless an index is already `u64::MAX`.
pub proof fn law_next_index_is_free(names: Seq<Seq<char>>, k: int)
    requires
        0 <= k < names.len(),
        spec_recovered_frame_index(names[k]) is Some,
        spec_recovered_frame_index(names[k])->0 < u64::MAX,
    ensures
        spec_recovered_frame_index(names[k])->0 < spec_next_available_index(names),
    decreases names.len(),
{
    if k < names.len() - 1 {
        assert(names.drop_last()[k] == names[k]);
        law_next_index_is_free(names.drop_last(), k);
    }
}

/// One past a recovered frame index, saturating at `u64::MAX`; 0 for a name
/// that is not a recovered frame.
pub open spec fn one_past(index: Option<u64>) -> u64 {
    match index {
        Some(i) => if i == u64::MAX {
            u64::MAX
        } else {
            (i + 1) as u64
        },
        None => 0,
    }
}

/// The chosen index is one past a listed recovered index (saturating at
/// `u64::MAX`), and 0 when the listing holds no recovered frame; with
/// `law_next_index_is_free` it is one past the largest listed index, so the
/// order in which the directory is listed does not matter.
pub proof fn law_next_index_is_one_past_a_listed_index(names: Seq<Seq<char>>)
    ensures
        (forall|k: int| 0 <= k < names.len() ==> #[trigger] spec_recovered_frame_index(names[k]) is None)
            ==> spec_next_available_index(names) == 0,
        (exists|k: int| 0 <= k < names.len() && #[trigger] spec_recovered_frame_index(names[k]) is Some)
            ==> exists|k: int|
            0 <= k < names.len() && (#[trigger] spec_recovered_frame_index(names[k]) is Some)
                && spec_next_available_index(names) == one_past(spec_recovered_frame_index(names[k])),
    decreases names.len(),
{
    if names.len() > 0 {
        let init = names.drop_last();
        let last = names.len() - 1;
        law_next_index_is_one_past_a_listed_index(init);
        assert forall|k: int| 0 <= k < init.len() implies #[trigger] init[k] == names[k] by {}
        assert(names.last() == names[last]);
        let rest = spec_next_available_index(init);
        let init_has = exists|k: int|
            0 <= k < init.len() && #[trigger] spec_recovered_frame_index(init[k]) is Some;
        if !init_has {
            assert forall|k: int| 0 <= k < init.len() implies #[trigger] spec_recovered_frame_index(
                init[k],
            ) is None by {}
            assert(rest == 0);
        }
        if spec_recovered_frame_index(names[last]) is Some {
            if one_past(spec_recovered_frame_index(names[last])) > rest {
                assert(spec_next_available_index(names) == one_past(spec_recovered_frame_index(names[last])));
            } else {
                assert(init_has);
                let k = choose|k: int|
                    0 <= k < init.len() && (#[trigger] spec_recovered_frame_index(init[k]) is Some)
                        && rest == one_past(spec_recovered_frame_index(init[k]));
                assert(spec_recovered_frame_index(names[k]) == spec_recovered_frame_index(init[k]));
            }
        } else {
            assert(spec_next_available_index(names) == rest);
            if exists|k: int| 0 <= k < names.len() && #[trigger] spec_recovered_frame_index(names[k]) is Some {
                let k0 = choose|k: int|
                    0 <= k < names.len() && #[trigger] spec_recovered_frame_index(names[k]) is Some;
                assert(k0 < init.len());
                assert(spec_recovered_frame_index(init[k0]) is Some);
                let k = choose|k: int|
                    0 <= k < init.len() && (#[trigger] spec_recovered_frame_index(init[k]) is Some)
                        && rest == one_past(spec_recovered_frame_index(init[k]));
                assert(spec_recovered_frame_index(names[k]) == spec_recovered_frame_index(init[k]));
            }
            if forall|k: int| 0 <= k < names.len() ==> #[trigger] spec_recovered_frame_index(names[k]) is None {
                assert forall|k: int| 0 <= k < init.len() implies #[trigger] spec_recovered_frame_index(
                    init[k],
                ) is None by {
                    assert(spec_recovered_frame_index(names[k]) is None);
                }
            }
        }
    }
}

/// The name under which a frame is recovered is read back as that frame's
/// index.
pub proof fn law_recovered_name_roundtrip(frame_index: u64)
    ensures
        spec_recovered_frame_index(frame_prefix() + zero_padded(frame_index as nat, 6) + png_suffix())
            == Some(frame_index),
{
    let n = frame_index as nat;
    let pad = zero_padded(n, 6);
    let name = frame_prefix() + pad + png_suffix();
    lemma_decimal_digits(n);
    lemma_zero_padded_value(n, 6);
    assert(name.subrange(6, name.len() - 4) =~= pad);
    assert(name.subrange(0, name.len() - 4).subrange(0, 6) =~= frame_prefix());
    assert(name.subrange(name.len() - 4, name.len() as int) =~= seq!['.'] + seq!['p', 'n', 'g']);
    assert(pad[0] != '+') by {
        assert(is_digit(pad[0]));
    }
    assert(name.len() > 4);
}

proof fn lemma_zero_padded_value(n: nat, width: nat)
    ensures
        zero_padded(n, width).len() >= 1,
        zero_padded(n, width).len() >= width,
        all_digits(zero_padded(n, width)),
        digits_value(zero_padded(n, width)) == n,
{
    lemma_decimal_digits(n);
    let d = decimal(n);
    if d.len() < width {
        let z = Seq::new((width - d.len()) as nat, |i: int| '0');
        lemma_leading_zeros_value(z, d);
        assert forall|k: int| 0 <= k < (z + d).len() implies #[trigger] is_digit((z + d)[k]) by {
            if k >= z.len() {
                assert((z + d)[k] == d[k - z.len()]);
            }
        }
    }
}

proof fn lemma_leading_zeros_value(z: Seq<char>, d: Seq<char>)
    requires
        forall|k: int| 0 <= k < z.len() ==> z[k] == '0',
    ensures
        digits_value(z + d) == digits_value(d) + digits_value(z) * pow10(d.len()),
        digits_value(z) == 0,
    decreases d.len() + z.len(),
{
    if d.len() == 0 {
        assert(z + d =~= z);
        lemma_zeros_value(z);
    } else {
        lemma_leading_zeros_value(z, d.drop_last());
        assert((z + d).drop_last() =~= z + d.drop_last());
        assert((z + d).last() == d.last());
    }
}

proof fn lemma_zeros_value(z: Seq<char>)
    requires
        forall|k: int| 0 <= k < z.len() ==> z[k] == '0',
    ensures
        digits_value(z) == 0,
    decreases z.len(),
{
    if z.len() > 0 {
        lemma_zeros_value(z.drop_last());
    }
}

/// `10` to the power `k`.
pub open spec fn pow10(k: nat) -> int
    decreases k,
{
    if k == 0 {
        1
    } else {
        10 * pow10((k - 1) as nat)
    }
}

} // verus!
