//! Character-level helpers shared by the other modules.

use vstd::prelude::*;
use vstd::string::StringExecFns;

verus! {

/// Appends one character to a string (`String::push`).
#[verifier::external_body]
pub fn push_char(s: &mut String, c: char)
    ensures
        final(s)@ == old(s)@.push(c),
{
    s.push(c);
}

/// String equality (`<str as PartialEq>::eq`): two string slices are equal
/// exactly when they hold the same characters.
#[verifier::external_body]
pub fn str_eq(a: &str, b: &str) -> (res: bool)
    ensures
        res == (a@ == b@),
{
    a == b
}

/// The characters of `s`, in order.
pub fn chars_of(s: &str) -> (res: Vec<char>)
    ensures
        res@ == s@,
{
    let mut res: Vec<char> = Vec::new();
    for c in it: s.chars()
        invariant
            res@ == it.seq().take(it.index() as int),
            it.seq() == s@,
    {
        res.push(c);
    }
    res
}


/// The string holding exactly `chars`.
pub fn string_from_chars(chars: &Vec<char>) -> (res: String)
    ensures
        res@ == chars@,
{
    let mut res = String::new();
    let mut i: usize = 0;
    while i < chars.len()
        invariant
            i <= chars@.len(),
            res@ == chars@.take(i as int),
        decreases chars@.len() - i,
    {
        push_char(&mut res, chars[i]);
        i += 1;
        assert(res@ =~= chars@.take(i as int));
    }
    assert(chars@.take(chars@.len() as int) =~= chars@);
    res
}

/// The smaller of two integers.
pub open spec fn min_int(a: int, b: int) -> int {
    if a <= b { a } else { b }
}

/// The first `max_chars` characters of `s` (all of it when shorter).
pub open spec fn spec_truncate(s: Seq<char>, max_chars: int) -> Seq<char> {
    s.take(min_int(max_chars, s.len() as int))
}

/// The first `max_chars` characters of `s`.
pub fn take_chars(s: &str, max_chars: usize) -> (res: String)
    ensures
        res@ == spec_truncate(s@, max_chars as int),
{
    let mut res = String::new();
    let mut n: usize = 0;
    for c in it: s.chars()
        invariant
            it.seq() == s@,
            n == min_int(it.index() as int, max_chars as int),
            res@ == s@.take(n as int),
    {
        if n < max_chars {
            push_char(&mut res, c);
            n += 1;
            assert(res@ =~= s@.take(n as int));
        }
    }
    res
}

/// ASCII upper-case letters map to lower case; every other character is kept.
pub open spec fn ascii_lower(c: char) -> char {
    if 'A' <= c && c <= 'Z' {
        ((c as u32) + 32) as char
    } else {
        c
    }
}

/// `to_ascii_lowercase` of a character sequence.
pub open spec fn ascii_lower_seq(s: Seq<char>) -> Seq<char> {
    s.map_values(|c: char| ascii_lower(c))
}

/// `char::to_ascii_lowercase`.
pub fn char_ascii_lower(c: char) -> (res: char)
    ensures
        res == ascii_lower(c),
{
    if c >= 'A' && c <= 'Z' {
        let code: u32 = c as u32;
        assert(65 <= code <= 90);
        let lowered: u8 = (code + 32) as u8;
        lowered as char
    } else {
        c
    }
}

/// `s` with every ASCII upper-case letter lowered.
pub fn ascii_lowercase(s: &Vec<char>) -> (res: Vec<char>)
    ensures
        res@ == ascii_lower_seq(s@),
{
    let mut res: Vec<char> = Vec::new();
    let mut i: usize = 0;
    while i < s.len()
        invariant
            i <= s@.len(),
            res@ == ascii_lower_seq(s@.take(i as int)),
        decreases s@.len() - i,
    {
        res.push(char_ascii_lower(s[i]));
        i += 1;
        assert(ascii_lower_seq(s@.take(i as int)) =~= ascii_lower_seq(s@.take(i - 1)).push(ascii_lower(s@[i - 1])));
    }
    assert(s@.take(s@.len() as int) =~= s@);
    res
}

/// `pattern` occurs in `s` starting at position `i`.
pub open spec fn occurs_at(s: Seq<char>, pattern: Seq<char>, i: int) -> bool {
    0 <= i && i + pattern.len() <= s.len() && s.subrange(i, i + pattern.len()) == pattern
}

/// `pattern` occurs somewhere in `s` (`str::contains`).
pub open spec fn contains_seq(s: Seq<char>, pattern: Seq<char>) -> bool {
    exists|i: int| occurs_at(s, pattern, i)
}

/// Whether `pattern` occurs in `s` at position `i`.
pub fn matches_at(s: &Vec<char>, pattern: &Vec<char>, i: usize) -> (res: bool)
    ensures
        res == occurs_at(s@, pattern@, i as int),
{
    if i > s.len() || pattern.len() > s.len() - i {
        return false;
    }
    let mut j: usize = 0;
    while j < pattern.len()
        invariant
            i + pattern@.len() <= s@.len(),
            s@.len() <= usize::MAX,
            j <= pattern@.len(),
            forall|k: int| 0 <= k < j ==> s@[i + k] == pattern@[k],
        decreases pattern@.len() - j,
    {
        if s[i + j] != pattern[j] {
            assert(s@.subrange(i as int, i + pattern@.len())[j as int] != pattern@[j as int]);
            return false;
        }
        j += 1;
    }
    assert(s@.subrange(i as int, i + pattern@.len()) =~= pattern@);
    true
}

/// Whether `pattern` occurs anywhere in `s`.
pub fn contains_chars(s: &Vec<char>, pattern: &Vec<char>) -> (res: bool)
    ensures
        res == contains_seq(s@, pattern@),
{
    if pattern.len() > s.len() {
        assert forall|i: int| !occurs_at(s@, pattern@, i) by {}
        return false;
    }
    let last: usize = s.len() - pattern.len();
    let mut i: usize = 0;
    while i < last
        invariant
            last == s@.len() - pattern@.len(),
            i <= last,
            forall|k: int| 0 <= k < i ==> !occurs_at(s@, pattern@, k),
        decreases last - i,
    {
        if matches_at(s, pattern, i) {
            return true;
        }
        i += 1;
    }
    if matches_at(s, pattern, last) {
        return true;
    }
    assert forall|k: int| !occurs_at(s@, pattern@, k) by {
        if 0 <= k <= last {
        }
    }
    false
}

/// Whether `pattern` occurs anywhere in the string `s`.
pub fn str_contains(s: &str, pattern: &str) -> (res: bool)
    ensures
        res == contains_seq(s@, pattern@),
{
    let sv = chars_of(s);
    let pv = chars_of(pattern);
    contains_chars(&sv, &pv)
}

/// `s` begins with `prefix`.
pub open spec fn has_prefix(s: Seq<char>, prefix: Seq<char>) -> bool {
    prefix.len() <= s.len() && s.subrange(0, prefix.len() as int) == prefix
}

/// Whether `s` begins with `prefix` (`str::starts_with`).
pub fn str_starts_with(s: &str, prefix: &str) -> (res: bool)
    ensures
        res == has_prefix(s@, prefix@),
{
    let sv = chars_of(s);
    let pv = chars_of(prefix);
    if pv.len() > sv.len() {
        return false;
    }
    let r = matches_at(&sv, &pv, 0);
    assert(occurs_at(sv@, pv@, 0) == has_prefix(s@, prefix@));
    r
}

/// `s` without its trailing `c` characters (`str::trim_end_matches` with a char).
pub open spec fn trim_end_char(s: Seq<char>, c: char) -> Seq<char>
    decreases s.len(),
{
    if s.len() > 0 && s.last() == c {
        trim_end_char(s.drop_last(), c)
    } else {
        s
    }
}

/// `s` without its trailing `c` characters.
pub fn trim_end_matches_char(s: &str, c: char) -> (res: String)
    ensures
        res@ == trim_end_char(s@, c),
{
    let v = chars_of(s);
    let mut n: usize = v.len();
    assert(v@.take(n as int) =~= v@);
    while n > 0 && v[n - 1] == c
        invariant
            n <= v@.len(),
            trim_end_char(v@, c) == trim_end_char(v@.take(n as int), c),
        decreases n,
    {
        assert(v@.take(n as int).drop_last() =~= v@.take(n - 1));
        n -= 1;
    }
    let mut kept: Vec<char> = Vec::new();
    let mut i: usize = 0;
    while i < n
        invariant
            n <= v@.len(),
            i <= n,
            kept@ == v@.take(i as int),
        decreases n - i,
    {
        kept.push(v[i]);
        i += 1;
        assert(kept@ =~= v@.take(i as int));
    }
    assert(v@ =~= v@.take(v@.len() as int));
    string_from_chars(&kept)
}

/// Whether `c` occurs in `s`.
pub fn str_has_char(s: &str, c: char) -> (res: bool)
    ensures
        res == s@.contains(c),
{
    let v = chars_of(s);
    let mut i: usize = 0;
    while i < v.len()
        invariant
            v@ == s@,
            i <= v@.len(),
            forall|k: int| 0 <= k < i ==> v@[k] != c,
        decreases v@.len() - i,
    {
        if v[i] == c {
            return true;
        }
        i += 1;
    }
    false
}

/// The decimal digit character for `n` (below 10).
pub open spec fn digit_char(n: int) -> char {
    (48 + n) as char
}

/// Decimal representation of `n`, without leading zeros.
pub open spec fn decimal(n: nat) -> Seq<char>
    decreases n,
{
    if n < 10 {
        seq![digit_char(n as int)]
    } else {
        decimal(n / 10).push(digit_char((n % 10) as int))
    }
}

/// `s` left-padded with `0` to at least `width` characters.
pub open spec fn zero_pad(s: Seq<char>, width: nat) -> Seq<char> {
    if s.len() >= width {
        s
    } else {
        Seq::new((width - s.len()) as nat, |i: int| '0') + s
    }
}

/// Decimal `n`, zero-padded to `width` (`format!("{n:0width$}")`).
pub open spec fn padded(n: nat, width: nat) -> Seq<char> {
    zero_pad(decimal(n), width)
}

/// The decimal digit character for `n`.
pub fn digit(n: u64) -> (res: char)
    requires
        n < 10,
    ensures
        res == digit_char(n as int),
{
    let b: u8 = 48 + n as u8;
    b as char
}

/// The decimal digits of `n`.
pub fn decimal_chars(n: u64) -> (res: Vec<char>)
    ensures
        res@ == decimal(n as nat),
    decreases n,
{
    if n < 10 {
        let mut v: Vec<char> = Vec::new();
        v.push(digit(n));
        assert(v@ =~= seq![digit_char(n as int)]);
        v
    } else {
        let mut v = decimal_chars(n / 10);
        v.push(digit(n % 10));
        v
    }
}

/// A decimal representation is never empty.
pub proof fn lemma_decimal_nonempty(n: nat)
    ensures
        decimal(n).len() >= 1,
    decreases n,
{
    if n >= 10 {
        lemma_decimal_nonempty(n / 10);
    }
}

/// Append `n` in decimal, zero-padded to `width` characters.
pub fn push_padded(out: &mut String, n: u64, width: usize)
    ensures
        final(out)@ == old(out)@ + padded(n as nat, width as nat),
{
    let digits = decimal_chars(n);
    let ghost start = out@;
    let mut i: usize = digits.len();
    while i < width
        invariant
            digits.len() <= i <= width || (i == digits.len() && i >= width),
            out@ == start + Seq::new((i - digits.len()) as nat, |k: int| '0'),
        decreases width - i,
    {
        push_char(out, '0');
        i += 1;
        assert(out@ =~= start + Seq::new((i - digits.len()) as nat, |k: int| '0'));
    }
    let mut j: usize = 0;
    let ghost pad = out@;
    while j < digits.len()
        invariant
            j <= digits@.len(),
            out@ == pad + digits@.take(j as int),
        decreases digits@.len() - j,
    {
        push_char(out, digits[j]);
        j += 1;
        assert(out@ =~= pad + digits@.take(j as int));
    }
    assert(digits@.take(digits@.len() as int) =~= digits@);
    if digits.len() >= width {
        assert(pad =~= start);
    } else {
        assert(pad =~= start + Seq::new((width - digits@.len()) as nat, |k: int| '0'));
    }
    assert(out@ =~= start + padded(n as nat, width as nat));
}

/// Unicode `White_Space` characters (`char::is_whitespace`).
pub open spec fn is_white_space(c: char) -> bool {
    let u = c as u32;
    (9 <= u <= 13) || u == 32 || u == 0x85 || u == 0xA0 || u == 0x1680 || (0x2000 <= u <= 0x200A)
        || u == 0x2028 || u == 0x2029 || u == 0x202F || u == 0x205F || u == 0x3000
}

/// Whether `c` is Unicode white space.
pub fn char_is_whitespace(c: char) -> (res: bool)
    ensures
        res == is_white_space(c),
{
    let u = c as u32;
    (9 <= u && u <= 13) || u == 32 || u == 0x85 || u == 0xA0 || u == 0x1680 || (0x2000 <= u && u
        <= 0x200A) || u == 0x2028 || u == 0x2029 || u == 0x202F || u == 0x205F || u == 0x3000
}

/// Number of leading white-space characters of `s`.
pub open spec fn leading_ws(s: Seq<char>) -> nat
    decreases s.len(),
{
    if s.len() > 0 && is_white_space(s[0]) {
        1 + leading_ws(s.drop_first())
    } else {
        0
    }
}

/// Number of trailing white-space characters of `s`.
pub open spec fn trailing_ws(s: Seq<char>) -> nat
    decreases s.len(),
{
    if s.len() > 0 && is_white_space(s.last()) {
        1 + trailing_ws(s.drop_last())
    } else {
        0
    }
}

/// `s` without leading and trailing white space (`str::trim`).
pub open spec fn trim(s: Seq<char>) -> Seq<char> {
    let t = drop_last_n(s, trailing_ws(s));
    t.skip(leading_ws(t) as int)
}

/// `s` with its last `n` elements removed.
pub open spec fn drop_last_n(s: Seq<char>, n: nat) -> Seq<char> {
    s.take(s.len() - n)
}

/// Leading white space never exceeds the sequence.
pub proof fn lemma_leading_ws_bound(s: Seq<char>)
    ensures
        leading_ws(s) <= s.len(),
    decreases s.len(),
{
    if s.len() > 0 && is_white_space(s[0]) {
        lemma_leading_ws_bound(s.drop_first());
    }
}

/// Trailing white space never exceeds the sequence.
pub proof fn lemma_trailing_ws_bound(s: Seq<char>)
    ensures
        trailing_ws(s) <= s.len(),
    decreases s.len(),
{
    if s.len() > 0 && is_white_space(s.last()) {
        lemma_trailing_ws_bound(s.drop_last());
    }
}

/// The characters of `v` from `lo` up to `hi`.
pub fn slice_chars(v: &Vec<char>, lo: usize, hi: usize) -> (res: Vec<char>)
    requires
        lo <= hi <= v@.len(),
    ensures
        res@ == v@.subrange(lo as int, hi as int),
{
    let mut res: Vec<char> = Vec::new();
    let mut i: usize = lo;
    while i < hi
        invariant
            lo <= i <= hi,
            hi <= v@.len(),
            res@ == v@.subrange(lo as int, i as int),
        decreases hi - i,
    {
        res.push(v[i]);
        i += 1;
        assert(res@ =~= v@.subrange(lo as int, i as int));
    }
    res
}

/// `v` without leading and trailing white space.
pub fn trim_chars(v: &Vec<char>) -> (res: Vec<char>)
    ensures
        res@ == trim(v@),
{
    let mut hi: usize = v.len();
    assert(v@.take(hi as int) =~= v@);
    while hi > 0 && char_is_whitespace(v[hi - 1])
        invariant
            hi <= v@.len(),
            trailing_ws(v@) == (v@.len() - hi) + trailing_ws(v@.take(hi as int)),
        decreases hi,
    {
        assert(v@.take(hi as int).drop_last() =~= v@.take(hi - 1));
        hi -= 1;
    }
    assert(trailing_ws(v@.take(hi as int)) == 0);
    let ghost t = v@.take(hi as int);
    assert(drop_last_n(v@, trailing_ws(v@)) =~= t);
    let mut lo: usize = 0;
    assert(t.skip(0) =~= t);
    while lo < hi && char_is_whitespace(v[lo])
        invariant
            lo <= hi <= v@.len(),
            t == v@.take(hi as int),
            leading_ws(t) == lo + leading_ws(t.skip(lo as int)),
        decreases hi - lo,
    {
        assert(t.skip(lo as int).drop_first() =~= t.skip(lo + 1));
        lo += 1;
    }
    assert(leading_ws(t.skip(lo as int)) == 0);
    assert(t.skip(lo as int) =~= v@.subrange(lo as int, hi as int));
    slice_chars(v, lo, hi)
}

/// `s` without leading and trailing white space.
pub fn str_trim(s: &str) -> (res: String)
    ensures
        res@ == trim(s@),
{
    let v = chars_of(s);
    let t = trim_chars(&v);
    string_from_chars(&t)
}

/// `s` with every non-overlapping occurrence of `pattern`, scanning left to
/// right, replaced by `replacement` (`str::replace` with a non-empty pattern).
pub open spec fn replace_all(s: Seq<char>, pattern: Seq<char>, replacement: Seq<char>) -> Seq<char>
    decreases s.len(),
{
    if pattern.len() == 0 || s.len() == 0 {
        s
    } else if occurs_at(s, pattern, 0) {
        replacement + replace_all(s.skip(pattern.len() as int), pattern, replacement)
    } else {
        seq![s[0]] + replace_all(s.drop_first(), pattern, replacement)
    }
}

/// `s` with every occurrence of `pattern` replaced by `replacement`.
pub fn str_replace(s: &str, pattern: &str, replacement: &str) -> (res: String)
    requires
        pattern@.len() > 0,
    ensures
        res@ == replace_all(s@, pattern@, replacement@),
{
    let v = chars_of(s);
    let p = chars_of(pattern);
    let r = chars_of(replacement);
    let mut out: Vec<char> = Vec::new();
    let mut i: usize = 0;
    assert(v@.skip(0) =~= v@);
    while i < v.len()
        invariant
            i <= v@.len(),
            p@.len() > 0,
            out@ + replace_all(v@.skip(i as int), p@, r@) == replace_all(v@, p@, r@),
        decreases v@.len() - i,
    {
        let ghost rest = v@.skip(i as int);
        let ghost before = out@;
        if matches_at(&v, &p, i) {
            assert(rest.subrange(0, p@.len() as int) =~= v@.subrange(i as int, i + p@.len()));
            assert(occurs_at(rest, p@, 0));
            let mut k: usize = 0;
            while k < r.len()
                invariant
                    k <= r@.len(),
                    out@ == before + r@.take(k as int),
                decreases r@.len() - k,
            {
                out.push(r[k]);
                k += 1;
                assert(out@ =~= before + r@.take(k as int));
            }
            assert(r@.take(r@.len() as int) =~= r@);
            assert(rest.skip(p@.len() as int) =~= v@.skip(i + p@.len()));
            assert(before + (r@ + replace_all(v@.skip(i + p@.len()), p@, r@)) =~= out@ + replace_all(
                v@.skip(i + p@.len()),
                p@,
                r@,
            ));
            i = i + p.len();
        } else {
            assert(!occurs_at(rest, p@, 0)) by {
                if occurs_at(rest, p@, 0) {
                    assert(rest.subrange(0, p@.len() as int) =~= v@.subrange(i as int, i + p@.len()));
                }
            }
            out.push(v[i]);
            assert(rest.drop_first() =~= v@.skip(i + 1));
            assert(before + (seq![v@[i as int]] + replace_all(v@.skip(i + 1), p@, r@)) =~= out@
                + replace_all(v@.skip(i + 1), p@, r@));
            i += 1;
        }
    }
    assert(out@ + replace_all(v@.skip(i as int), p@, r@) =~= out@);
    string_from_chars(&out)
}

/// Number of leading characters of `s` that are not white space.
pub open spec fn word_len(s: Seq<char>) -> nat
    decreases s.len(),
{
    if s.len() > 0 && !is_white_space(s[0]) {
        1 + word_len(s.drop_first())
    } else {
        0
    }
}

/// A word never exceeds the sequence it starts.
pub proof fn lemma_word_len_bound(s: Seq<char>)
    ensures
        word_len(s) <= s.len(),
    decreases s.len(),
{
    if s.len() > 0 && !is_white_space(s[0]) {
        lemma_word_len_bound(s.drop_first());
    }
}

/// The white-space separated words of `s` (`str::split_whitespace`).
pub open spec fn words(s: Seq<char>) -> Seq<Seq<char>>
    decreases s.len(),
{
    let rest = s.skip(leading_ws(s) as int);
    if leading_ws(s) > s.len() || rest.len() == 0 {
        seq![]
    } else {
        let w = word_len(rest);
        if w == 0 || w > rest.len() {
            seq![]
        } else {
            seq![rest.take(w as int)] + words(rest.skip(w as int))
        }
    }
}

/// The white-space separated words of `s`.
pub fn split_whitespace(s: &str) -> (res: Vec<Vec<char>>)
    ensures
        res@.map_values(|w: Vec<char>| w@) == words(s@),
{
    let v = chars_of(s);
    let mut out: Vec<Vec<char>> = Vec::new();
    let mut i: usize = 0;
    assert(v@.skip(0) =~= v@);
    while i < v.len()
        invariant
            i <= v@.len(),
            out@.map_values(|w: Vec<char>| w@) + words(v@.skip(i as int)) == words(v@),
        decreases v@.len() - i,
    {
        let ghost rest0 = v@.skip(i as int);
        let start = i;
        while i < v.len() && char_is_whitespace(v[i])
            invariant
                start <= i <= v@.len(),
                leading_ws(rest0) == (i - start) + leading_ws(v@.skip(i as int)),
                rest0 == v@.skip(start as int),
            decreases v@.len() - i,
        {
            assert(v@.skip(i as int).drop_first() =~= v@.skip(i + 1));
            i += 1;
        }
        proof {
            lemma_leading_ws_bound(rest0);
            assert(leading_ws(v@.skip(i as int)) == 0);
            assert(rest0.skip(leading_ws(rest0) as int) =~= v@.skip(i as int));
        }
        if i == v.len() {
            assert(words(rest0) =~= seq![]);
            assert(out@.map_values(|w: Vec<char>| w@) + words(v@.skip(i as int)) =~= out@.map_values(|w: Vec<char>| w@));
        } else {
            let ghost rest = v@.skip(i as int);
            let wstart = i;
            while i < v.len() && !char_is_whitespace(v[i])
                invariant
                    wstart <= i <= v@.len(),
                    word_len(rest) == (i - wstart) + word_len(v@.skip(i as int)),
                    rest == v@.skip(wstart as int),
                decreases v@.len() - i,
            {
                assert(v@.skip(i as int).drop_first() =~= v@.skip(i + 1));
                i += 1;
            }
            proof {
                lemma_word_len_bound(rest);
                assert(word_len(v@.skip(i as int)) == 0);
                assert(rest.skip(word_len(rest) as int) =~= v@.skip(i as int));
                assert(rest.take(word_len(rest) as int) =~= v@.subrange(wstart as int, i as int));
            }
            let word = slice_chars(&v, wstart, i);
            let ghost before = out@.map_values(|w: Vec<char>| w@);
            out.push(word);
            assert(out@.map_values(|w: Vec<char>| w@) =~= before.push(word@));
            assert(before + words(rest0) =~= before.push(word@) + words(v@.skip(i as int)));
        }
    }
    assert(words(v@.skip(i as int)) =~= seq![]);
    assert(out@.map_values(|w: Vec<char>| w@) + seq![] =~= out@.map_values(|w: Vec<char>| w@));
    out
}

/// An ASCII decimal digit.
pub open spec fn is_digit(c: char) -> bool {
    '0' <= c && c <= '9'
}

/// The value of a run of decimal digits.
pub open spec fn digits_value(s: Seq<char>) -> nat
    decreases s.len(),
{
    if s.len() == 0 {
        0
    } else {
        (digits_value(s.drop_last()) * 10 + ((s.last() as u32) - 48)) as nat
    }
}

/// `s` without one leading `+`.
pub open spec fn unsigned_body(s: Seq<char>) -> Seq<char> {
    if s.len() > 0 && s[0] == '+' {
        s.drop_first()
    } else {
        s
    }
}

/// Every character is an ASCII digit.
pub open spec fn all_digits(s: Seq<char>) -> bool {
    forall|k: int| 0 <= k < s.len() ==> is_digit(#[trigger] s[k])
}

/// The value `str::parse::<u64>` gives `s`: an optional `+`, then one or more
/// ASCII digits, the value not exceeding `u64::MAX`.
pub open spec fn parse_u64(s: Seq<char>) -> Option<u64> {
    let body = unsigned_body(s);
    if body.len() > 0 && all_digits(body) && digits_value(body) <= u64::MAX {
        Some(digits_value(body) as u64)
    } else {
        None
    }
}

/// Adding a digit never lowers the value.
proof fn lemma_digits_grow(s: Seq<char>, k: int)
    requires
        0 <= k <= s.len(),
        forall|t: int| 0 <= t < s.len() ==> is_digit(#[trigger] s[t]),
    ensures
        digits_value(s.take(k)) <= digits_value(s),
    decreases s.len() - k,
{
    if k < s.len() {
        lemma_digits_grow(s, k + 1);
        assert(s.take(k + 1).drop_last() =~= s.take(k));
    } else {
        assert(s.take(k) =~= s);
    }
}

/// `str::parse::<u64>`.
pub fn parse_u64_chars(s: &Vec<char>) -> (res: Option<u64>)
    ensures
        res == parse_u64(s@),
{
    let start: usize = if s.len() > 0 && s[0] == '+' { 1 } else { 0 };
    let ghost body = unsigned_body(s@);
    assert(body =~= s@.skip(start as int));
    if start == s.len() {
        return None;
    }
    let mut value: u64 = 0;
    let mut i: usize = start;
    while i < s.len()
        invariant
            start <= i <= s@.len(),
            body == s@.skip(start as int),
            body == unsigned_body(s@),
            start < s@.len(),
            forall|t: int| start <= t < i ==> is_digit(#[trigger] s@[t]),
            value == digits_value(s@.subrange(start as int, i as int)),
        decreases s@.len() - i,
    {
        let c = s[i];
        assert(body[i - start] == s@[i as int]);
        if !(c >= '0' && c <= '9') {
            assert(!is_digit(body[i - start]));
            return None;
        }
        let d: u64 = (c as u32 - 48) as u64;
        assert(s@.subrange(start as int, i + 1).drop_last() =~= s@.subrange(start as int, i as int));
        if value > (u64::MAX - d) / 10 {
            proof {
                let whole = s@.subrange(start as int, i + 1);
                assert(whole.last() == c);
                assert(digits_value(whole) == value * 10 + d);
                assert(value * 10 + d > u64::MAX);
                assert(digits_value(whole) > u64::MAX);
                if all_digits(body) {
                    lemma_digits_grow(body, (i + 1 - start) as int);
                    assert(body.take((i + 1 - start) as int) =~= whole);
                }
            }
            return None;
        }
        value = value * 10 + d;
        i += 1;
    }
    assert(s@.subrange(start as int, i as int) =~= body);
    Some(value)
}

/// The value `str::parse::<i64>` gives `s`: an optional `+` or `-`, then one
/// or more ASCII digits, the value within the range of `i64`.
pub open spec fn parse_i64(s: Seq<char>) -> Option<i64> {
    if s.len() > 0 && s[0] == '-' {
        let body = s.drop_first();
        if body.len() > 0 && all_digits(body) && digits_value(body) <= 0x8000_0000_0000_0000 {
            Some((0 - digits_value(body)) as i64)
        } else {
            None
        }
    } else {
        let body = unsigned_body(s);
        if body.len() > 0 && all_digits(body) && digits_value(body) <= i64::MAX {
            Some(digits_value(body) as i64)
        } else {
            None
        }
    }
}

/// `str::parse::<i64>`.
pub fn parse_i64_chars(s: &Vec<char>) -> (res: Option<i64>)
    ensures
        res == parse_i64(s@),
{
    if s.len() > 0 && s[0] == '-' {
        if s.len() > 1 && s[1] == '+' {
            assert(!is_digit(s@.drop_first()[0]));
            return None;
        }
        let rest = slice_chars(s, 1, s.len());
        assert(rest@ =~= s@.drop_first());
        assert(unsigned_body(rest@) =~= rest@);
        match parse_u64_chars(&rest) {
            Some(v) => {
                if v <= 0x8000_0000_0000_0000u64 {
                    if v == 0x8000_0000_0000_0000u64 {
                        Some(i64::MIN)
                    } else {
                        let n: i64 = v as i64;
                        Some(-n)
                    }
                } else {
                    None
                }
            },
            None => None,
        }
    } else {
        match parse_u64_chars(s) {
            Some(v) => {
                if v <= i64::MAX as u64 {
                    Some(v as i64)
                } else {
                    None
                }
            },
            None => None,
        }
    }
}

/// Signed decimal representation of `n`.
pub open spec fn signed_decimal(n: int) -> Seq<char> {
    if n < 0 {
        seq!['-'] + decimal((-n) as nat)
    } else {
        decimal(n as nat)
    }
}

/// `i64::to_string`.
pub fn i64_to_string(n: i64) -> (res: String)
    ensures
        res@ == signed_decimal(n as int),
{
    let mut out = String::new();
    let magnitude: u64 = if n < 0 {
        if n == i64::MIN { 9223372036854775808u64 } else { (-n) as u64 }
    } else {
        n as u64
    };
    if n < 0 {
        push_char(&mut out, '-');
    }
    let digits = decimal_chars(magnitude);
    let s = string_from_chars(&digits);
    out.append(s.as_str());
    assert(out@ =~= signed_decimal(n as int));
    out
}

/// The position of the first occurrence of `pattern` in `s` at or after `from`.
pub open spec fn find_from(s: Seq<char>, pattern: Seq<char>, from: int) -> Option<int>
    decreases s.len() + 1 - from,
{
    if from < 0 || from + pattern.len() > s.len() {
        None
    } else if occurs_at(s, pattern, from) {
        Some(from)
    } else {
        find_from(s, pattern, from + 1)
    }
}

/// The position of the first occurrence of `pattern` in `s` (`str::find`).
pub open spec fn find_first(s: Seq<char>, pattern: Seq<char>) -> Option<int> {
    find_from(s, pattern, 0)
}

/// A found position is an occurrence, and none comes before it.
pub proof fn lemma_find_from(s: Seq<char>, pattern: Seq<char>, from: int)
    requires
        0 <= from,
    ensures
        find_from(s, pattern, from) matches Some(i) ==> from <= i && occurs_at(s, pattern, i)
            && forall|k: int| from <= k < i ==> !occurs_at(s, pattern, k),
        find_from(s, pattern, from) is None ==> forall|k: int| from <= k ==> !occurs_at(s, pattern, k),
    decreases s.len() + 1 - from,
{
    if from + pattern.len() <= s.len() && !occurs_at(s, pattern, from) {
        lemma_find_from(s, pattern, from + 1);
    }
}

/// The position of the first occurrence of `pattern` in `s`.
pub fn find_chars(s: &Vec<char>, pattern: &Vec<char>) -> (res: Option<usize>)
    ensures
        opt_usize(res) == find_first(s@, pattern@),
{
    if pattern.len() > s.len() {
        return None;
    }
    let last: usize = s.len() - pattern.len();
    let mut i: usize = 0;
    while i < last
        invariant
            last == s@.len() - pattern@.len(),
            i <= last,
            find_first(s@, pattern@) == find_from(s@, pattern@, i as int),
        decreases last - i,
    {
        if matches_at(s, pattern, i) {
            return Some(i);
        }
        i += 1;
    }
    if matches_at(s, pattern, last) {
        return Some(last);
    }
    assert(find_from(s@, pattern@, last + 1) is None);
    None
}

/// An optional index as an integer.
pub open spec fn opt_usize(o: Option<usize>) -> Option<int> {
    match o {
        Some(i) => Some(i as int),
        None => None,
    }
}

/// The position of the first `c` in `s` at or after `from`.
pub open spec fn find_char_from(s: Seq<char>, c: char, from: int) -> Option<int>
    decreases s.len() - from,
{
    if from < 0 || from >= s.len() {
        None
    } else if s[from] == c {
        Some(from)
    } else {
        find_char_from(s, c, from + 1)
    }
}

/// The pieces of `s` between occurrences of `sep` (`str::split` with a char).
pub open spec fn split_char(s: Seq<char>, sep: char) -> Seq<Seq<char>>
    decreases s.len(),
{
    match find_char_from(s, sep, 0) {
        Some(i) => if 0 <= i < s.len() {
            seq![s.take(i)] + split_char(s.skip(i + 1), sep)
        } else {
            seq![s]
        },
        None => seq![s],
    }
}

/// A found character is at the reported position, with none before it.
pub proof fn lemma_find_char_from(s: Seq<char>, c: char, from: int)
    requires
        0 <= from,
    ensures
        find_char_from(s, c, from) matches Some(i) ==> from <= i < s.len() && s[i] == c && forall|k: int|
            from <= k < i ==> s[k] != c,
        find_char_from(s, c, from) is None ==> forall|k: int| from <= k < s.len() ==> s[k] != c,
    decreases s.len() - from,
{
    if from < s.len() && s[from] != c {
        lemma_find_char_from(s, c, from + 1);
    }
}

/// The position of the first `c` in `s[from..]`.
pub fn find_char(v: &Vec<char>, c: char, from: usize) -> (res: Option<usize>)
    ensures
        opt_usize(res) == find_char_from(v@, c, from as int),
{
    let mut i = from;
    while i < v.len()
        invariant
            from <= i,
            find_char_from(v@, c, from as int) == find_char_from(v@, c, i as int),
        decreases v@.len() - i,
    {
        if v[i] == c {
            return Some(i);
        }
        i += 1;
    }
    None
}

/// The pieces of `v` between occurrences of `sep`.
pub fn split_on_char(v: &Vec<char>, sep: char) -> (res: Vec<Vec<char>>)
    ensures
        res@.map_values(|p: Vec<char>| p@) == split_char(v@, sep),
{
    let mut out: Vec<Vec<char>> = Vec::new();
    let mut start: usize = 0;
    let n: usize = v.len();
    assert(v@.skip(0) =~= v@);
    loop
        invariant
            start <= v@.len(),
            n == v@.len(),
            out@.map_values(|p: Vec<char>| p@) + split_char(v@.skip(start as int), sep) == split_char(v@, sep),
        decreases v@.len() - start,
    {
        let ghost rest = v@.skip(start as int);
        let ghost before = out@.map_values(|p: Vec<char>| p@);
        proof {
            lemma_find_char_from(rest, sep, 0);
            lemma_find_char_from(v@, sep, start as int);
        }
        match find_char(v, sep, start) {
            Some(i) => {
                proof {
                    assert(find_char_from(rest, sep, 0) == Some(i - start)) by {
                        lemma_find_char_from_shift(v@, sep, start as int, start as int);
                    }
                    assert(rest.take(i - start) =~= v@.subrange(start as int, i as int));
                    assert(rest.skip(i - start + 1) =~= v@.skip(i + 1));
                }
                assert(i < v@.len());
                let piece = slice_chars(v, start, i);
                out.push(piece);
                assert(out@.map_values(|p: Vec<char>| p@) =~= before.push(piece@));
                assert(before + split_char(rest, sep) =~= before.push(piece@) + split_char(v@.skip(i + 1), sep));
                start = i + 1;
            },
            None => {
                proof {
                    assert(find_char_from(rest, sep, 0) is None) by {
                        lemma_find_char_from_shift(v@, sep, start as int, start as int);
                    }
                    assert(rest =~= v@.subrange(start as int, v@.len() as int));
                }
                let piece = slice_chars(v, start, v.len());
                out.push(piece);
                assert(out@.map_values(|p: Vec<char>| p@) =~= before + seq![piece@]);
                return out;
            },
        }
    }
}

/// Searching a suffix finds the same characters, shifted.
pub proof fn lemma_find_char_from_shift(s: Seq<char>, c: char, start: int, from: int)
    requires
        0 <= start <= from,
        start <= s.len(),
    ensures
        find_char_from(s.skip(start), c, from - start) == match find_char_from(s, c, from) {
            Some(i) => Some(i - start),
            None => None::<int>,
        },
    decreases s.len() - from,
{
    if from < s.len() && s[from] != c {
        lemma_find_char_from_shift(s, c, start, from + 1);
    }
}

/// `s` without leading and trailing `c` characters (`str::trim_matches` with a char).
pub open spec fn trim_char(s: Seq<char>, c: char) -> Seq<char> {
    let t = trim_end_char(s, c);
    t.skip(leading_char_count(t, c) as int)
}

/// Number of leading `c` characters of `s`.
pub open spec fn leading_char_count(s: Seq<char>, c: char) -> nat
    decreases s.len(),
{
    if s.len() > 0 && s[0] == c {
        1 + leading_char_count(s.drop_first(), c)
    } else {
        0
    }
}

/// `line` without one trailing carriage return.
pub open spec fn strip_cr(line: Seq<char>) -> Seq<char> {
    if line.len() > 0 && line.last() == '\r' {
        line.drop_last()
    } else {
        line
    }
}

/// The lines of `s` (`str::lines`): split at `\n`, one trailing `\r`
/// removed from each, and no empty line after a final `\n`.
pub open spec fn lines(s: Seq<char>) -> Seq<Seq<char>> {
    let pieces = split_char(s, '\n');
    let kept = if pieces.len() > 0 && pieces.last().len() == 0 {
        pieces.drop_last()
    } else {
        pieces
    };
    kept.map_values(|l: Seq<char>| strip_cr(l))
}

/// The lines of `v`.
pub fn lines_of(v: &Vec<char>) -> (res: Vec<Vec<char>>)
    ensures
        res@.map_values(|l: Vec<char>| l@) == lines(v@),
{
    let pieces = split_on_char(v, '\n');
    let ghost pv = pieces@.map_values(|p: Vec<char>| p@);
    let keep: usize = if pieces.len() > 0 && pieces[pieces.len() - 1].len() == 0 {
        pieces.len() - 1
    } else {
        pieces.len()
    };
    let ghost kept = if pv.len() > 0 && pv.last().len() == 0 { pv.drop_last() } else { pv };
    assert(kept.len() == keep);
    let mut out: Vec<Vec<char>> = Vec::new();
    let mut i: usize = 0;
    while i < keep
        invariant
            i <= keep,
            keep <= pieces@.len(),
            kept.len() == keep,
            pv == pieces@.map_values(|p: Vec<char>| p@),
            forall|k: int| 0 <= k < keep ==> kept[k] == pv[k],
            out@.len() == i,
            forall|k: int| 0 <= k < i ==> out@[k]@ == strip_cr(kept[k]),
        decreases keep - i,
    {
        let piece = &pieces[i];
        let n = piece.len();
        let line = if n > 0 && piece[n - 1] == '\r' {
            slice_chars(piece, 0, n - 1)
        } else {
            slice_chars(piece, 0, n)
        };
        assert(piece@.subrange(0, n as int) =~= piece@);
        assert(piece@.subrange(0, n - 1) =~= piece@.drop_last());
        out.push(line);
        i += 1;
    }
    assert(out@.map_values(|l: Vec<char>| l@) =~= lines(v@));
    out
}

/// `s` with `prefix` removed, when it starts with it (`str::strip_prefix`).
pub open spec fn strip_prefix(s: Seq<char>, prefix: Seq<char>) -> Option<Seq<char>> {
    if has_prefix(s, prefix) {
        Some(s.skip(prefix.len() as int))
    } else {
        None
    }
}

/// `v` with `prefix` removed, when it starts with it.
pub fn strip_prefix_chars(v: &Vec<char>, prefix: &str) -> (res: Option<Vec<char>>)
    ensures
        match res {
            Some(r) => strip_prefix(v@, prefix@) == Some(r@),
            None => strip_prefix(v@, prefix@) is None,
        },
{
    let p = chars_of(prefix);
    if p.len() > v.len() || !matches_at(v, &p, 0) {
        return None;
    }
    let r = slice_chars(v, p.len(), v.len());
    assert(r@ =~= v@.skip(p@.len() as int));
    Some(r)
}

/// `v` without leading and trailing `c` characters.
pub fn trim_matches_chars(v: &Vec<char>, c: char) -> (res: Vec<char>)
    ensures
        res@ == trim_char(v@, c),
{
    let mut hi: usize = v.len();
    assert(v@.take(hi as int) =~= v@);
    while hi > 0 && v[hi - 1] == c
        invariant
            hi <= v@.len(),
            trim_end_char(v@, c) == trim_end_char(v@.take(hi as int), c),
        decreases hi,
    {
        assert(v@.take(hi as int).drop_last() =~= v@.take(hi - 1));
        hi -= 1;
    }
    let ghost t = v@.take(hi as int);
    assert(trim_end_char(v@, c) == t);
    let mut lo: usize = 0;
    assert(t.skip(0) =~= t);
    while lo < hi && v[lo] == c
        invariant
            lo <= hi <= v@.len(),
            t == v@.take(hi as int),
            leading_char_count(t, c) == lo + leading_char_count(t.skip(lo as int), c),
        decreases hi - lo,
    {
        assert(t.skip(lo as int).drop_first() =~= t.skip(lo + 1));
        lo += 1;
    }
    assert(t.skip(lo as int) =~= v@.subrange(lo as int, hi as int));
    slice_chars(v, lo, hi)
}

/// An optional string as plain values.
pub open spec fn opt_string(o: Option<String>) -> Option<Seq<char>> {
    match o {
        Some(s) => Some(s@),
        None => None,
    }
}

/// The parts joined with a newline between each two (`join("\n")`).
pub open spec fn join_lines(parts: Seq<Seq<char>>) -> Seq<char>
    decreases parts.len(),
{
    if parts.len() == 0 {
        seq![]
    } else if parts.len() == 1 {
        parts[0]
    } else {
        join_lines(parts.drop_last()) + seq!['\n'] + parts.last()
    }
}

/// `parts.join("\n")`.
pub fn join_newline(parts: &Vec<String>) -> (res: String)
    ensures
        res@ == join_lines(parts@.map_values(|p: String| p@)),
{
    let ghost pv = parts@.map_values(|p: String| p@);
    let mut out = String::new();
    let mut i: usize = 0;
    proof {
        assert(pv.take(0) =~= seq![]);
    }
    while i < parts.len()
        invariant
            i <= parts@.len(),
            pv == parts@.map_values(|p: String| p@),
            out@ == join_lines(pv.take(i as int)),
        decreases parts@.len() - i,
    {
        proof {
            assert(pv.take(i + 1).drop_last() =~= pv.take(i as int));
            assert(pv.take(i + 1).last() == parts@[i as int]@);
        }
        if i > 0 {
            push_char(&mut out, '\n');
        } else {
            assert(out@ =~= seq![]);
        }
        out.append(parts[i].as_str());
        proof {
            if i == 0 {
                assert(pv.take(1) =~= seq![pv[0]]);
            }
            assert(out@ =~= join_lines(pv.take(i + 1)));
        }
        i += 1;
    }
    assert(pv.take(i as int) =~= pv);
    out
}


/// Whether `s` ends with `suffix`.
pub open spec fn has_suffix(s: Seq<char>, suffix: Seq<char>) -> bool {
    suffix.len() <= s.len() && s.subrange(s.len() - suffix.len(), s.len() as int) == suffix
}

} // verus!
