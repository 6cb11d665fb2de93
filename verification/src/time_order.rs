//! The order of RFC-3339 timestamps: later instants give texts that sort no
//! earlier.

use vstd::prelude::*;
use crate::text::{padded, decimal, digit_char, zero_pad};
use crate::assemble::{pow10, lemma_decimal_len};
use crate::dates::{valid_date, days_from_civil, iso_seconds, spec_rfc3339_from_millis, civil_of, date_lt, lemma_date_order, lemma_civil_of_valid, lemma_date_before_10000};

verus! {

/// `a` sorts strictly before `b`, character by character, where both have
/// the same length.
pub open spec fn lex_lt(a: Seq<char>, b: Seq<char>) -> bool {
    a.len() == b.len() && exists|k: int|
        0 <= k < a.len() && a.take(k) == b.take(k) && (#[trigger] a[k] as u32) < (b[k] as u32)
}

/// `a` sorts no later than `b`.
pub open spec fn lex_le(a: Seq<char>, b: Seq<char>) -> bool {
    a == b || lex_lt(a, b)
}

/// The last `w` decimal digits of `n`.
pub open spec fn fixed(n: nat, w: nat) -> Seq<char>
    decreases w,
{
    if w == 0 {
        seq![]
    } else {
        fixed(n / 10, (w - 1) as nat).push(digit_char((n % 10) as int))
    }
}

/// The digits of zero are zeros.
proof fn lemma_fixed_zero(w: nat)
    ensures
        fixed(0, w) == Seq::new(w, |i: int| '0'),
    decreases w,
{
    if w > 0 {
        lemma_fixed_zero((w - 1) as nat);
        assert(digit_char(0) == '0');
        assert(fixed(0, w) =~= Seq::new(w, |i: int| '0'));
    }
}

/// A number below `10^w` padded to `w` digits is its last `w` digits.
proof fn lemma_padded_fixed(n: nat, w: nat)
    requires
        w >= 1,
        n < pow10(w),
    ensures
        padded(n, w) == fixed(n, w),
    decreases w,
{
    lemma_decimal_len(n, w);
    if n < 10 {
        lemma_fixed_zero((w - 1) as nat);
        assert(fixed(n, w) == fixed(0, (w - 1) as nat).push(digit_char(n as int)));
        assert(padded(n, w) =~= fixed(n, w));
    } else {
        assert(pow10(w) == 10 * pow10((w - 1) as nat));
        assert(n / 10 < pow10((w - 1) as nat)) by (nonlinear_arith)
            requires
                n < 10 * pow10((w - 1) as nat),
        ;
        if w == 1 {
            assert(pow10(0) == 1);
        } else {
            lemma_padded_fixed(n / 10, (w - 1) as nat);
            lemma_decimal_len(n / 10, (w - 1) as nat);
            let d = decimal(n / 10);
            assert(decimal(n) == d.push(digit_char((n % 10) as int)));
            assert(zero_pad(d.push(digit_char((n % 10) as int)), w) =~= zero_pad(d, (w - 1) as nat).push(
                digit_char((n % 10) as int),
            ));
        }
    }
}

/// Appending equal-length tails keeps a strict order of equal-length heads.
proof fn lemma_lt_append(a: Seq<char>, b: Seq<char>, x: Seq<char>, y: Seq<char>)
    requires
        lex_lt(a, b),
        x.len() == y.len(),
    ensures
        lex_lt(a + x, b + y),
{
    let k = choose|k: int| 0 <= k < a.len() && a.take(k) == b.take(k) && (#[trigger] a[k] as u32) < (b[k] as u32);
    assert((a + x).take(k) =~= a.take(k));
    assert((b + y).take(k) =~= b.take(k));
    assert((a + x)[k] == a[k]);
    assert((b + y)[k] == b[k]);
}

/// A common head keeps the order of the tails.
proof fn lemma_lt_prepend(p: Seq<char>, x: Seq<char>, y: Seq<char>)
    requires
        lex_lt(x, y),
    ensures
        lex_lt(p + x, p + y),
{
    let k = choose|k: int| 0 <= k < x.len() && x.take(k) == y.take(k) && (#[trigger] x[k] as u32) < (y[k] as u32);
    assert((p + x).take(p.len() + k) =~= p + x.take(k));
    assert((p + y).take(p.len() + k) =~= p + y.take(k));
    assert((p + x)[p.len() + k] == x[k]);
    assert((p + y)[p.len() + k] == y[k]);
}

/// Smaller numbers have smaller fixed-width digits.
proof fn lemma_fixed_lt(n: nat, m: nat, w: nat)
    requires
        n < m < pow10(w),
    ensures
        lex_lt(fixed(n, w), fixed(m, w)),
    decreases w,
{
    if w == 0 {
        assert(pow10(0) == 1);
    } else {
        let p = pow10((w - 1) as nat);
        assert(pow10(w) == 10 * p);
        assert(n / 10 <= m / 10 && m / 10 < p) by (nonlinear_arith)
            requires
                n < m,
                m < 10 * p,
        ;
        let dn = digit_char((n % 10) as int);
        let dm = digit_char((m % 10) as int);
        if n / 10 < m / 10 {
            lemma_fixed_lt(n / 10, m / 10, (w - 1) as nat);
            lemma_lt_append(fixed(n / 10, (w - 1) as nat), fixed(m / 10, (w - 1) as nat), seq![dn], seq![dm]);
            assert(fixed(n / 10, (w - 1) as nat) + seq![dn] =~= fixed(n, w));
            assert(fixed(m / 10, (w - 1) as nat) + seq![dm] =~= fixed(m, w));
        } else {
            assert(n % 10 < m % 10);
            let f = fixed(n / 10, (w - 1) as nat);
            assert(fixed(n, w) == f.push(dn));
            assert(fixed(m, w) == f.push(dm));
            assert((dn as u32) < (dm as u32));
            assert(fixed(n, w).take(f.len() as int) =~= f);
            assert(fixed(m, w).take(f.len() as int) =~= f);
            assert(fixed(n, w)[f.len() as int] == dn);
        }
    }
}

/// The fixed-width digits of a number have that width.
proof fn lemma_fixed_len(n: nat, w: nat)
    ensures
        fixed(n, w).len() == w,
    decreases w,
{
    if w > 0 {
        lemma_fixed_len(n / 10, (w - 1) as nat);
    }
}

/// Smaller numbers below `10^w` pad to smaller texts of width `w`.
pub proof fn lemma_padded_lt(n: nat, m: nat, w: nat)
    requires
        w >= 1,
        n < m < pow10(w),
    ensures
        lex_lt(padded(n, w), padded(m, w)),
{
    lemma_padded_fixed(n, w);
    lemma_padded_fixed(m, w);
    lemma_fixed_lt(n, m, w);
}

/// Equal numbers below `10^w` pad to texts of width `w`.
pub proof fn lemma_padded_len_w(n: nat, w: nat)
    requires
        w >= 1,
        n < pow10(w),
    ensures
        padded(n, w).len() == w,
{
    lemma_padded_fixed(n, w);
    lemma_fixed_len(n, w);
}

/// Pieces run together.
pub open spec fn concat(p: Seq<Seq<char>>) -> Seq<char>
    decreases p.len(),
{
    if p.len() == 0 {
        seq![]
    } else {
        concat(p.drop_last()) + p.last()
    }
}

/// Running two runs of pieces together.
proof fn lemma_concat_append(a: Seq<Seq<char>>, b: Seq<Seq<char>>)
    ensures
        concat(a + b) == concat(a) + concat(b),
    decreases b.len(),
{
    if b.len() == 0 {
        assert(a + b =~= a);
        assert(concat(a) + concat(b) =~= concat(a));
    } else {
        lemma_concat_append(a, b.drop_last());
        assert((a + b).drop_last() =~= a + b.drop_last());
        assert(concat(a) + concat(b) =~= concat(a) + concat(b.drop_last()) + b.last());
    }
}

/// Pieces of equal lengths run together to equal lengths.
proof fn lemma_concat_len(a: Seq<Seq<char>>, b: Seq<Seq<char>>)
    requires
        a.len() == b.len(),
        forall|i: int| 0 <= i < a.len() ==> (#[trigger] a[i]).len() == b[i].len(),
    ensures
        concat(a).len() == concat(b).len(),
    decreases a.len(),
{
    if a.len() > 0 {
        lemma_concat_len(a.drop_last(), b.drop_last());
    }
}

/// Two runs of pieces of equal lengths that agree up to piece `j`, where
/// `a`'s piece sorts before `b`'s, sort the same way.
proof fn lemma_concat_lt(a: Seq<Seq<char>>, b: Seq<Seq<char>>, j: int)
    requires
        a.len() == b.len(),
        0 <= j < a.len(),
        forall|i: int| 0 <= i < a.len() ==> (#[trigger] a[i]).len() == b[i].len(),
        forall|i: int| 0 <= i < j ==> #[trigger] a[i] == b[i],
        lex_lt(a[j], b[j]),
    ensures
        lex_lt(concat(a), concat(b)),
{
    let ha = a.take(j);
    let hb = b.take(j);
    assert(ha =~= hb);
    let ta = a.skip(j + 1);
    let tb = b.skip(j + 1);
    assert(a =~= ha + seq![a[j]] + ta);
    assert(b =~= hb + seq![b[j]] + tb);
    lemma_concat_append(ha + seq![a[j]], ta);
    lemma_concat_append(ha, seq![a[j]]);
    lemma_concat_append(hb + seq![b[j]], tb);
    lemma_concat_append(hb, seq![b[j]]);
    assert(concat(seq![a[j]]) =~= a[j]) by {
        assert(seq![a[j]].drop_last() =~= Seq::<Seq<char>>::empty());
        assert(concat(Seq::<Seq<char>>::empty()) =~= Seq::<char>::empty());
        assert(concat(seq![a[j]]) == concat(seq![a[j]].drop_last()) + seq![a[j]].last());
    }
    assert(concat(seq![b[j]]) =~= b[j]) by {
        assert(seq![b[j]].drop_last() =~= Seq::<Seq<char>>::empty());
        assert(concat(Seq::<Seq<char>>::empty()) =~= Seq::<char>::empty());
        assert(concat(seq![b[j]]) == concat(seq![b[j]].drop_last()) + seq![b[j]].last());
    }
    assert forall|i: int| 0 <= i < ta.len() implies (#[trigger] ta[i]).len() == tb[i].len() by {
        assert(ta[i] == a[i + j + 1]);
        assert(tb[i] == b[i + j + 1]);
    }
    lemma_concat_len(ta, tb);
    lemma_lt_append(a[j], b[j], concat(ta), concat(tb));
    lemma_lt_prepend(concat(ha), a[j] + concat(ta), b[j] + concat(tb));
    assert(concat(a) =~= concat(ha) + (a[j] + concat(ta)));
    assert(concat(b) =~= concat(hb) + (b[j] + concat(tb)));
}

/// The pieces of a timestamp.
pub open spec fn stamp_pieces(y: nat, mo: nat, d: nat, h: nat, mi: nat, s: nat, ms: nat) -> Seq<Seq<char>> {
    seq![
        padded(y, 4), "-"@, padded(mo, 2), "-"@, padded(d, 2), "T"@, padded(h, 2), ":"@, padded(mi, 2), ":"@,
        padded(s, 2), "."@, padded(ms, 3), "Z"@,
    ]
}

/// Fields that fit their widths.
pub open spec fn fields_fit(y: nat, mo: nat, d: nat, h: nat, mi: nat, s: nat, ms: nat) -> bool {
    y < 10000 && mo < 100 && d < 100 && h < 100 && mi < 100 && s < 100 && ms < 1000
}

/// The pieces of timestamps with fitting fields have the same lengths.
proof fn lemma_pieces_len(
    a: (nat, nat, nat, nat, nat, nat, nat),
    b: (nat, nat, nat, nat, nat, nat, nat),
)
    requires
        fields_fit(a.0, a.1, a.2, a.3, a.4, a.5, a.6),
        fields_fit(b.0, b.1, b.2, b.3, b.4, b.5, b.6),
    ensures
        ({
            let pa = stamp_pieces(a.0, a.1, a.2, a.3, a.4, a.5, a.6);
            let pb = stamp_pieces(b.0, b.1, b.2, b.3, b.4, b.5, b.6);
            pa.len() == pb.len() && forall|i: int| 0 <= i < pa.len() ==> (#[trigger] pa[i]).len() == pb[i].len()
        }),
{
    reveal_with_fuel(pow10, 5);
    lemma_padded_len_w(a.0, 4);
    lemma_padded_len_w(b.0, 4);
    lemma_padded_len_w(a.1, 2);
    lemma_padded_len_w(b.1, 2);
    lemma_padded_len_w(a.2, 2);
    lemma_padded_len_w(b.2, 2);
    lemma_padded_len_w(a.3, 2);
    lemma_padded_len_w(b.3, 2);
    lemma_padded_len_w(a.4, 2);
    lemma_padded_len_w(b.4, 2);
    lemma_padded_len_w(a.5, 2);
    lemma_padded_len_w(b.5, 2);
    lemma_padded_len_w(a.6, 3);
    lemma_padded_len_w(b.6, 3);
}

/// Lexicographic order of field tuples.
pub open spec fn tuple_lt(a: (nat, nat, nat, nat, nat, nat, nat), b: (nat, nat, nat, nat, nat, nat, nat)) -> bool {
    ||| a.0 < b.0
    ||| a.0 == b.0 && a.1 < b.1
    ||| a.0 == b.0 && a.1 == b.1 && a.2 < b.2
    ||| a.0 == b.0 && a.1 == b.1 && a.2 == b.2 && a.3 < b.3
    ||| a.0 == b.0 && a.1 == b.1 && a.2 == b.2 && a.3 == b.3 && a.4 < b.4
    ||| a.0 == b.0 && a.1 == b.1 && a.2 == b.2 && a.3 == b.3 && a.4 == b.4 && a.5 < b.5
    ||| a.0 == b.0 && a.1 == b.1 && a.2 == b.2 && a.3 == b.3 && a.4 == b.4 && a.5 == b.5 && a.6 < b.6
}

/// Timestamps with fitting fields sort as their field tuples do.
proof fn lemma_stamp_lt(a: (nat, nat, nat, nat, nat, nat, nat), b: (nat, nat, nat, nat, nat, nat, nat))
    requires
        fields_fit(a.0, a.1, a.2, a.3, a.4, a.5, a.6),
        fields_fit(b.0, b.1, b.2, b.3, b.4, b.5, b.6),
        tuple_lt(a, b),
    ensures
        lex_lt(
            concat(stamp_pieces(a.0, a.1, a.2, a.3, a.4, a.5, a.6)),
            concat(stamp_pieces(b.0, b.1, b.2, b.3, b.4, b.5, b.6)),
        ),
{
    let pa = stamp_pieces(a.0, a.1, a.2, a.3, a.4, a.5, a.6);
    let pb = stamp_pieces(b.0, b.1, b.2, b.3, b.4, b.5, b.6);
    lemma_pieces_len(a, b);
    reveal_with_fuel(pow10, 5);
    if a.0 < b.0 {
        lemma_padded_lt(a.0, b.0, 4);
        lemma_concat_lt(pa, pb, 0);
    } else if a.1 < b.1 {
        lemma_padded_lt(a.1, b.1, 2);
        lemma_concat_lt(pa, pb, 2);
    } else if a.2 < b.2 {
        lemma_padded_lt(a.2, b.2, 2);
        lemma_concat_lt(pa, pb, 4);
    } else if a.3 < b.3 {
        lemma_padded_lt(a.3, b.3, 2);
        lemma_concat_lt(pa, pb, 6);
    } else if a.4 < b.4 {
        lemma_padded_lt(a.4, b.4, 2);
        lemma_concat_lt(pa, pb, 8);
    } else if a.5 < b.5 {
        lemma_padded_lt(a.5, b.5, 2);
        lemma_concat_lt(pa, pb, 10);
    } else {
        lemma_padded_lt(a.6, b.6, 3);
        lemma_concat_lt(pa, pb, 12);
    }
}

/// The fields of the timestamp of a clamped instant.
pub open spec fn stamp_fields(m: int) -> (nat, nat, nat, nat, nat, nat, nat) {
    let secs = m / 1000;
    let day = civil_of(secs / 86400);
    let sod = secs % 86400;
    (day.0 as nat, day.1 as nat, day.2 as nat, (sod / 3600) as nat, ((sod % 3600) / 60) as nat, (sod % 60) as nat,
        (m % 1000) as nat)
}

/// The timestamp of a clamped instant is the run of its pieces, and its
/// fields fit their widths.
proof fn lemma_stamp_of(millis: int)
    requires
        millis < 253_402_300_800_000,
    ensures
        ({
            let m = if millis < 0 { 0 } else { millis };
            let f = stamp_fields(m);
            &&& fields_fit(f.0, f.1, f.2, f.3, f.4, f.5, f.6)
            &&& spec_rfc3339_from_millis(millis) == concat(stamp_pieces(f.0, f.1, f.2, f.3, f.4, f.5, f.6))
            &&& days_from_civil(f.0 as int, f.1 as int, f.2 as int) == (m / 1000) / 86400
            &&& valid_date(f.0 as int, f.1 as int, f.2 as int)
        }),
{
    let m = if millis < 0 { 0 } else { millis };
    let secs = m / 1000;
    let days = secs / 86400;
    lemma_civil_of_valid(days);
    let c = civil_of(days);
    assert(days < 2932897);
    lemma_date_before_10000(c.0, c.1, c.2);
    let f = stamp_fields(m);
    reveal_with_fuel(concat, 15);
    assert(spec_rfc3339_from_millis(millis) =~= concat(stamp_pieces(f.0, f.1, f.2, f.3, f.4, f.5, f.6)));
}

/// Earlier seconds of the day, or the same second and an earlier
/// millisecond, give an earlier hour, minute, second and millisecond.
proof fn lemma_time_order(sa: int, sb: int, xa: int, xb: int)
    requires
        0 <= sa < 86400,
        0 <= sb < 86400,
        0 <= xa < 1000,
        0 <= xb < 1000,
        sa * 1000 + xa < sb * 1000 + xb,
    ensures
        ({
            let (ha, ia, ca) = (sa / 3600, (sa % 3600) / 60, sa % 60);
            let (hb, ib, cb) = (sb / 3600, (sb % 3600) / 60, sb % 60);
            ||| ha < hb
            ||| ha == hb && ia < ib
            ||| ha == hb && ia == ib && ca < cb
            ||| ha == hb && ia == ib && ca == cb && xa < xb
        }),
{
    assert(sa <= sb) by (nonlinear_arith)
        requires
            sa * 1000 + xa < sb * 1000 + xb,
            0 <= xa < 1000,
            0 <= xb < 1000,
    ;
    assert(sa == (sa / 3600) * 3600 + ((sa % 3600) / 60) * 60 + sa % 60);
    assert(sb == (sb / 3600) * 3600 + ((sb % 3600) / 60) * 60 + sb % 60);
}

/// An earlier clamped instant has earlier timestamp fields.
proof fn lemma_fields_lt(ma: int, mb: int)
    requires
        0 <= ma < mb < 253_402_300_800_000,
    ensures
        tuple_lt(stamp_fields(ma), stamp_fields(mb)),
{
    lemma_stamp_of(ma);
    lemma_stamp_of(mb);
    let fa = stamp_fields(ma);
    let fb = stamp_fields(mb);
    let da = (ma / 1000) / 86400;
    let db = (mb / 1000) / 86400;
    assert(ma / 1000 <= mb / 1000);
    assert(da <= db);
    if da < db {
        if date_lt(fb.0 as int, fb.1 as int, fb.2 as int, fa.0 as int, fa.1 as int, fa.2 as int) {
            lemma_date_order(fb.0 as int, fb.1 as int, fb.2 as int, fa.0 as int, fa.1 as int, fa.2 as int);
        }
        assert(!(fa.0 == fb.0 && fa.1 == fb.1 && fa.2 == fb.2));
    } else {
        let sa = (ma / 1000) % 86400;
        let sb = (mb / 1000) % 86400;
        assert(ma == ((ma / 1000) / 86400) * 86400000 + sa * 1000 + ma % 1000);
        assert(mb == ((mb / 1000) / 86400) * 86400000 + sb * 1000 + mb % 1000);
        lemma_time_order(sa, sb, ma % 1000, mb % 1000);
    }
}

/// Later instants give timestamps that sort no earlier, for instants before
/// the year 10000 (negative ones read as the epoch).
pub proof fn law_later_instants_sort_later(a: int, b: int)
    requires
        a <= b < 253_402_300_800_000,
    ensures
        lex_le(spec_rfc3339_from_millis(a), spec_rfc3339_from_millis(b)),
{
    let ma = if a < 0 { 0 } else { a };
    let mb = if b < 0 { 0 } else { b };
    lemma_stamp_of(a);
    lemma_stamp_of(b);
    if ma < mb {
        lemma_fields_lt(ma, mb);
        lemma_stamp_lt(stamp_fields(ma), stamp_fields(mb));
    }
}

} // verus!
