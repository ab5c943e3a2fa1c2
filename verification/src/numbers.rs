//! What the shortest form of a decimal number means: one form for each number.

use vstd::prelude::*;

use crate::mapping::{canonical, shortest, without_leading, without_trailing};
use crate::text::{
    all_digits, digit, digits_value, lemma_length_before, lemma_trimmed, length_before,
    split_first,
};

verus! {

/// Ten to the power of `n`.
pub open spec fn ten_to(n: nat) -> int
    decreases n,
{
    if n == 0 {
        1
    } else {
        10 * ten_to((n - 1) as nat)
    }
}

/// Whether a text begins with a sign.
pub open spec fn has_sign(s: Seq<char>) -> bool {
    s.len() > 0 && (s[0] == '-' || s[0] == '+')
}

/// A text without its sign.
pub open spec fn unsigned_part(s: Seq<char>) -> Seq<char> {
    if has_sign(s) {
        s.drop_first()
    } else {
        s
    }
}

/// The digits in front of the point.
pub open spec fn integer_part(s: Seq<char>) -> Seq<char> {
    match split_first(unsigned_part(s), '.') {
        Some((a, _)) => a,
        None => unsigned_part(s),
    }
}

/// The digits behind the point, none where there is no point.
pub open spec fn fraction_part(s: Seq<char>) -> Seq<char> {
    match split_first(unsigned_part(s), '.') {
        Some((_, b)) => b,
        None => Seq::empty(),
    }
}

/// Whether a text is a decimal number: a sign or none, one or more digits, and a
/// point with any digits behind it or none.
pub open spec fn is_decimal(s: Seq<char>) -> bool {
    integer_part(s).len() > 0 && all_digits(integer_part(s)) && all_digits(fraction_part(s))
}

/// The size of a decimal number, in units of its last digit.
pub open spec fn units(s: Seq<char>) -> int {
    digits_value(integer_part(s) + fraction_part(s)) as int
}

/// A decimal number, in units of its last digit.
pub open spec fn signed_units(s: Seq<char>) -> int {
    if s.len() > 0 && s[0] == '-' {
        -units(s)
    } else {
        units(s)
    }
}

/// Whether two decimals denote the same number.
pub open spec fn same_number(a: Seq<char>, b: Seq<char>) -> bool {
    signed_units(a) * ten_to(fraction_part(b).len()) == signed_units(b) * ten_to(
        fraction_part(a).len(),
    )
}

/// Whether digits are in their shortest form: no zero in front but a single one, and
/// none at the end of the fraction.
pub open spec fn short_digits(whole: Seq<char>, part: Seq<char>) -> bool {
    &&& whole.len() > 0 && all_digits(whole) && all_digits(part)
    &&& whole[0] == '0' ==> whole.len() == 1
    &&& part.len() > 0 ==> part.last() != '0'
}

pub proof fn lemma_ten_to(n: nat)
    ensures
        ten_to(n) > 0,
    decreases n,
{
    if n > 0 {
        lemma_ten_to((n - 1) as nat);
    }
}

pub proof fn lemma_ten_to_adds(a: nat, b: nat)
    ensures
        ten_to(a + b) == ten_to(a) * ten_to(b),
    decreases b,
{
    if b == 0 {
        assert(ten_to(a) * 1 == ten_to(a));
    } else {
        lemma_ten_to_adds(a, (b - 1) as nat);
        let x = ten_to(a);
        let y = ten_to((b - 1) as nat);
        assert(10 * (x * y) == x * (10 * y)) by (nonlinear_arith);
    }
}

proof fn lemma_ten_to_grows(a: nat, b: nat)
    requires
        a <= b,
    ensures
        ten_to(a) <= ten_to(b),
    decreases b,
{
    if a < b {
        lemma_ten_to_grows(a, (b - 1) as nat);
        lemma_ten_to((b - 1) as nat);
    }
}

proof fn lemma_prefix_digits(s: Seq<char>)
    requires
        all_digits(s),
        s.len() > 0,
    ensures
        all_digits(s.drop_last()),
        digit(s.last()),
{
    let rest = s.drop_last();
    assert forall|i: int| 0 <= i < rest.len() implies digit(#[trigger] rest[i]) by {
        assert(rest[i] == s[i]);
    }
    assert(digit(s[s.len() - 1]));
}

pub proof fn lemma_value_adds(a: Seq<char>, b: Seq<char>)
    requires
        all_digits(a),
        all_digits(b),
    ensures
        digits_value(a + b) == digits_value(a) * ten_to(b.len()) + digits_value(b),
        all_digits(a + b),
    decreases b.len(),
{
    assert forall|i: int| 0 <= i < (a + b).len() implies digit(#[trigger] (a + b)[i]) by {
        if i < a.len() {
            assert((a + b)[i] == a[i]);
        } else {
            assert((a + b)[i] == b[i - a.len()]);
        }
    }
    if b.len() == 0 {
        assert(a + b =~= a);
        assert(digits_value(a) * 1 == digits_value(a));
    } else {
        lemma_prefix_digits(b);
        assert((a + b).drop_last() =~= a + b.drop_last());
        lemma_value_adds(a, b.drop_last());
        let x = digits_value(a) as int;
        let y = ten_to((b.len() - 1) as nat);
        assert((x * y) * 10 == x * (10 * y)) by (nonlinear_arith);
    }
}

proof fn lemma_value_bounds(s: Seq<char>)
    requires
        all_digits(s),
    ensures
        0 <= digits_value(s) < ten_to(s.len()),
    decreases s.len(),
{
    if s.len() > 0 {
        lemma_prefix_digits(s);
        lemma_value_bounds(s.drop_last());
    }
}

proof fn lemma_value_large(s: Seq<char>)
    requires
        all_digits(s),
        s.len() > 0,
        s[0] != '0',
    ensures
        digits_value(s) >= ten_to((s.len() - 1) as nat),
    decreases s.len(),
{
    lemma_prefix_digits(s);
    if s.len() == 1 {
        assert(digits_value(s.drop_last()) == 0);
        assert(s.last() == s[0]);
    } else {
        assert(s.drop_last()[0] == s[0]);
        lemma_value_large(s.drop_last());
    }
}

proof fn lemma_same_digits(a: Seq<char>, b: Seq<char>)
    requires
        all_digits(a),
        all_digits(b),
        a.len() == b.len(),
        digits_value(a) == digits_value(b),
    ensures
        a == b,
    decreases a.len(),
{
    if a.len() == 0 {
        assert(a =~= b);
    } else {
        lemma_prefix_digits(a);
        lemma_prefix_digits(b);
        lemma_same_digits(a.drop_last(), b.drop_last());
        assert(a.last() == b.last());
        assert(a =~= a.drop_last().push(a.last()));
        assert(b =~= b.drop_last().push(b.last()));
    }
}

proof fn lemma_same_whole(a: Seq<char>, b: Seq<char>)
    requires
        short_digits(a, Seq::empty()),
        short_digits(b, Seq::empty()),
        digits_value(a) == digits_value(b),
    ensures
        a == b,
{
    lemma_value_bounds(a);
    lemma_value_bounds(b);
    if a.len() < b.len() {
        lemma_value_large(b);
        lemma_ten_to_grows(a.len(), (b.len() - 1) as nat);
    } else if b.len() < a.len() {
        lemma_value_large(a);
        lemma_ten_to_grows(b.len(), (a.len() - 1) as nat);
    }
    lemma_same_digits(a, b);
}

/// The last digit of the digits in front of and behind the point.
proof fn lemma_last_digit(whole: Seq<char>, part: Seq<char>)
    requires
        all_digits(whole),
        all_digits(part),
        part.len() > 0,
        part.last() != '0',
    ensures
        digits_value(whole + part) % 10 != 0,
{
    let all = whole + part;
    lemma_value_adds(whole, part);
    lemma_prefix_digits(part);
    assert(all.last() == part.last());
    let high = digits_value(all.drop_last()) as int;
    let low = all.last() as u32 - '0' as u32;
    assert(0 < low < 10);
    assert(digits_value(all) == high * 10 + low);
}

/// Two shortest forms of one size are the same.
proof fn lemma_one_short_form(w: Seq<char>, p: Seq<char>, x: Seq<char>, q: Seq<char>)
    requires
        short_digits(w, p),
        short_digits(x, q),
        digits_value(w + p) * ten_to(q.len()) == digits_value(x + q) * ten_to(p.len()),
        p.len() <= q.len(),
    ensures
        w == x,
        p == q,
{
    let v = digits_value(w + p) as int;
    let u = digits_value(x + q) as int;
    let more = (q.len() - p.len()) as nat;
    let t = ten_to(p.len());
    let d = ten_to(more);
    lemma_ten_to_adds(p.len(), more);
    lemma_ten_to(p.len());
    assert(ten_to(q.len()) == t * d);
    assert(v * d == u) by (nonlinear_arith)
        requires
            v * (t * d) == u * t,
            t > 0,
    ;
    if more > 0 {
        let e = ten_to((more - 1) as nat);
        assert(u == 10 * (v * e)) by (nonlinear_arith)
            requires
                u == v * d,
                d == 10 * e,
        ;
        lemma_last_digit(x, q);
        assert(false);
    }
    assert(d == 1);
    assert(v == u);
    lemma_value_adds(w, p);
    lemma_value_adds(x, q);
    lemma_value_bounds(p);
    lemma_value_bounds(q);
    let a = digits_value(w) as int;
    let b = digits_value(x) as int;
    let m = digits_value(p) as int;
    let n = digits_value(q) as int;
    assert(a == b && m == n) by (nonlinear_arith)
        requires
            a * t + m == b * t + n,
            0 <= m < t,
            0 <= n < t,
    ;
    lemma_same_digits(p, q);
    lemma_same_whole(w, x);
}

/// What is left of digits without the zeros in front.
proof fn lemma_without_leading(s: Seq<char>)
    requires
        all_digits(s),
    ensures
        ({
            let r = without_leading(s, '0');
            &&& all_digits(r)
            &&& digits_value(r) == digits_value(s)
            &&& r.len() > 0 ==> r[0] != '0'
        }),
    decreases s.len(),
{
    if s.len() > 0 && s[0] == '0' {
        let rest = s.drop_first();
        assert forall|i: int| 0 <= i < rest.len() implies digit(#[trigger] rest[i]) by {
            assert(rest[i] == s[i + 1]);
        }
        lemma_without_leading(rest);
        let zero = seq!['0'];
        assert(all_digits(zero));
        assert(zero.drop_last() =~= Seq::<char>::empty());
        assert(digits_value(zero.drop_last()) == 0);
        assert(digits_value(zero) == 0);
        lemma_value_adds(zero, rest);
        assert(zero + rest =~= s);
    }
}

/// What is left of digits without the zeros at the end.
proof fn lemma_without_trailing(s: Seq<char>)
    requires
        all_digits(s),
    ensures
        ({
            let r = without_trailing(s, '0');
            &&& all_digits(r)
            &&& r.len() <= s.len()
            &&& digits_value(s) == digits_value(r) * ten_to((s.len() - r.len()) as nat)
            &&& r.len() > 0 ==> r.last() != '0'
        }),
    decreases s.len(),
{
    if s.len() > 0 && s.last() == '0' {
        lemma_prefix_digits(s);
        let rest = s.drop_last();
        lemma_without_trailing(rest);
        let r = without_trailing(s, '0');
        let x = digits_value(r) as int;
        let y = ten_to((rest.len() - r.len()) as nat);
        assert((x * y) * 10 == x * (10 * y)) by (nonlinear_arith);
    } else {
        assert(digits_value(s) * 1 == digits_value(s));
    }
}

/// The whole part of a shortest form.
pub open spec fn short_whole(integer: Seq<char>) -> Seq<char> {
    if without_leading(integer, '0').len() == 0 {
        seq!['0']
    } else {
        without_leading(integer, '0')
    }
}

proof fn lemma_short_parts(integer: Seq<char>, fraction: Seq<char>)
    requires
        all_digits(integer),
        all_digits(fraction),
    ensures
        ({
            let w = short_whole(integer);
            let p = without_trailing(fraction, '0');
            &&& short_digits(w, p)
            &&& digits_value(integer + fraction) * ten_to(p.len()) == digits_value(w + p) * ten_to(
                fraction.len(),
            )
        }),
{
    let w = short_whole(integer);
    let p = without_trailing(fraction, '0');
    lemma_without_leading(integer);
    lemma_without_trailing(fraction);
    if without_leading(integer, '0').len() == 0 {
        assert(without_leading(integer, '0') =~= Seq::<char>::empty());
        assert(w.drop_last() =~= Seq::<char>::empty());
        assert(digits_value(w.drop_last()) == 0);
    }
    assert(all_digits(w));
    assert(digits_value(w) == digits_value(integer));
    lemma_value_adds(integer, fraction);
    lemma_value_adds(w, p);
    let less = (fraction.len() - p.len()) as nat;
    lemma_ten_to_adds(p.len(), less);
    let a = digits_value(w) as int;
    let m = digits_value(p) as int;
    let t = ten_to(p.len());
    let d = ten_to(less);
    assert((a * (t * d) + m * d) * t == (a * t + m) * (t * d)) by (nonlinear_arith);
}

/// What the shortest form of a decimal is made of.
proof fn lemma_canonical_parts(s: Seq<char>)
    requires
        is_decimal(s),
    ensures
        ({
            let w = short_whole(integer_part(s));
            let p = without_trailing(fraction_part(s), '0');
            let body = if p.len() == 0 {
                w
            } else {
                w + seq!['.'] + p
            };
            &&& canonical(s) is Some
            &&& canonical(s)->0 == if s[0] == '-' && body != seq!['0'] {
                seq!['-'] + body
            } else {
                body
            }
            &&& body == shortest(integer_part(s), fraction_part(s))
        }),
{
    let body = unsigned_part(s);
    lemma_length_before(body, '.');
    let n = length_before(body, '.');
    // The first and the last character are no white space.
    assert(integer_part(s)[0] == body[0]);
    assert(digit(integer_part(s)[0]));
    if n < body.len() {
        if n + 1 < body.len() {
            let f = fraction_part(s);
            assert(f[f.len() - 1] == body.last());
            assert(digit(f[f.len() - 1]));
        } else {
            assert(body.last() == '.');
        }
    } else {
        assert(integer_part(s)[body.len() - 1] == body.last());
        assert(digit(integer_part(s)[body.len() - 1]));
    }
    assert(s.last() == body.last());
    let none = Seq::<char>::empty();
    lemma_trimmed(none, s, none);
    assert(none + s + none =~= s);
    if s[0] == '+' {
        assert(s.drop_first() =~= body);
    } else if s[0] == '-' {
        assert(s.drop_first() =~= body);
    } else {
        assert(body =~= s);
    }
}

/// The shortest form of a decimal is a decimal, and denotes the same number.
proof fn lemma_canonical_denotes(s: Seq<char>)
    requires
        is_decimal(s),
    ensures
        canonical(s) is Some,
        is_decimal(canonical(s)->0),
        same_number(s, canonical(s)->0),
{
    lemma_canonical_parts(s);
    let w = short_whole(integer_part(s));
    let p = without_trailing(fraction_part(s), '0');
    lemma_short_parts(integer_part(s), fraction_part(s));
    let body = if p.len() == 0 {
        w
    } else {
        w + seq!['.'] + p
    };
    let c = canonical(s)->0;
    assert(digit(w[0]));
    assert(body[0] == w[0]);
    assert(unsigned_part(c) =~= body);
    lemma_length_before(body, '.');
    assert(forall|i: int| 0 <= i < w.len() ==> body[i] == w[i]);
    assert forall|i: int| 0 <= i < w.len() implies body[i] != '.' by {
        assert(digit(w[i]));
    }
    if p.len() == 0 {
        assert(length_before(body, '.') == body.len());
        assert(p =~= Seq::<char>::empty());
        assert(integer_part(c) == w && fraction_part(c) == p);
    } else {
        assert(body[w.len() as int] == '.');
        assert(length_before(body, '.') == w.len());
        assert(body.take(w.len() as int) =~= w);
        assert(body.skip(w.len() as int + 1) =~= p);
        assert(integer_part(c) == w && fraction_part(c) == p);
    }
    if s[0] == '-' && body == seq!['0'] {
        if p.len() > 0 {
            assert(body.len() >= 3);
        }
        assert(w =~= seq!['0']);
        assert(w + p =~= w);
        assert(w.drop_last() =~= Seq::<char>::empty());
        assert(digits_value(w.drop_last()) == 0);
        assert(digits_value(w) == 0);
        let t = ten_to(p.len());
        lemma_ten_to(p.len());
        lemma_ten_to(fraction_part(s).len());
        assert(units(s) == 0) by (nonlinear_arith)
            requires
                units(s) * t == 0 * ten_to(fraction_part(s).len()),
                t > 0,
        ;
        assert((-units(s)) * t == 0) by (nonlinear_arith)
            requires
                units(s) == 0,
        ;
    } else if s[0] == '-' {
        let x = units(s);
        let t = ten_to(p.len());
        let y = units(c);
        let f = ten_to(fraction_part(s).len());
        assert((-x) * t == (-y) * f) by (nonlinear_arith)
            requires
                x * t == y * f,
        ;
    }
}

proof fn lemma_same_number_same_form(a: Seq<char>, b: Seq<char>)
    requires
        is_decimal(a),
        is_decimal(b),
        same_number(a, b),
    ensures
        canonical(a) == canonical(b),
{
    lemma_canonical_parts(a);
    lemma_canonical_parts(b);
    lemma_short_parts(integer_part(a), fraction_part(a));
    lemma_short_parts(integer_part(b), fraction_part(b));
    let w = short_whole(integer_part(a));
    let p = without_trailing(fraction_part(a), '0');
    let x = short_whole(integer_part(b));
    let q = without_trailing(fraction_part(b), '0');
    let fa = ten_to(fraction_part(a).len());
    let fb = ten_to(fraction_part(b).len());
    let tp = ten_to(p.len());
    let tq = ten_to(q.len());
    lemma_ten_to(fraction_part(a).len());
    lemma_ten_to(fraction_part(b).len());
    lemma_ten_to(p.len());
    lemma_ten_to(q.len());
    let ua = units(a);
    let ub = units(b);
    let va = digits_value(w + p) as int;
    let vb = digits_value(x + q) as int;
    lemma_sizes_agree(signed_units(a), signed_units(b), ua, ub, fa, fb);
    lemma_short_sizes_agree(ua, ub, va, vb, fa, fb, tp, tq);
    if p.len() <= q.len() {
        lemma_one_short_form(w, p, x, q);
    } else {
        lemma_one_short_form(x, q, w, p);
    }
    // Where one is negative and the other is not, both are zero.
    if (a[0] == '-') != (b[0] == '-') {
        assert(ua == 0 && ub == 0) by (nonlinear_arith)
            requires
                ua * fb == ub * fa,
                (-ua) * fb == ub * fa || ua * fb == (-ub) * fa,
                ua >= 0,
                ub >= 0,
                fa > 0,
                fb > 0,
        ;
        assert(va == 0) by (nonlinear_arith)
            requires
                ua * tp == va * fa,
                ua == 0,
                fa > 0,
        ;
        lemma_zero_form(w, p);
    }
}

proof fn lemma_sizes_agree(sa: int, sb: int, ua: int, ub: int, fa: int, fb: int)
    requires
        sa == ua || sa == -ua,
        sb == ub || sb == -ub,
        ua >= 0,
        ub >= 0,
        fa > 0,
        fb > 0,
        sa * fb == sb * fa,
    ensures
        ua * fb == ub * fa,
{
    assert(ua * fb >= 0) by (nonlinear_arith)
        requires
            ua >= 0,
            fb > 0,
    ;
    assert(ub * fa >= 0) by (nonlinear_arith)
        requires
            ub >= 0,
            fa > 0,
    ;
    assert((-ua) * fb == -(ua * fb)) by (nonlinear_arith);
    assert((-ub) * fa == -(ub * fa)) by (nonlinear_arith);
}

proof fn lemma_short_sizes_agree(
    ua: int,
    ub: int,
    va: int,
    vb: int,
    fa: int,
    fb: int,
    tp: int,
    tq: int,
)
    requires
        ua * fb == ub * fa,
        ua * tp == va * fa,
        ub * tq == vb * fb,
        fa > 0,
        fb > 0,
        tp > 0,
        tq > 0,
    ensures
        va * tq == vb * tp,
{
    // va * fa * fb * tq == ua * tp * fb * tq == ub * fa * tp * tq == vb * fb * fa * tp
    assert((va * tq) * (fa * fb) == (va * fa) * (fb * tq)) by (nonlinear_arith);
    assert((ua * tp) * (fb * tq) == (ua * fb) * (tp * tq)) by (nonlinear_arith);
    assert((ub * fa) * (tp * tq) == (ub * tq) * (fa * tp)) by (nonlinear_arith);
    assert((vb * fb) * (fa * tp) == (vb * tp) * (fa * fb)) by (nonlinear_arith);
    let d = fa * fb;
    assert(d > 0) by (nonlinear_arith)
        requires
            d == fa * fb,
            fa > 0,
            fb > 0,
    ;
    let x = va * tq;
    let y = vb * tp;
    assert(x == y) by (nonlinear_arith)
        requires
            x * d == y * d,
            d > 0,
    ;
}

/// The shortest form of zero.
proof fn lemma_zero_form(w: Seq<char>, p: Seq<char>)
    requires
        short_digits(w, p),
        digits_value(w + p) == 0,
    ensures
        w == seq!['0'],
        p.len() == 0,
{
    if p.len() > 0 {
        lemma_last_digit(w, p);
    }
    assert(w + p =~= w);
    if w[0] != '0' {
        lemma_value_large(w);
        lemma_ten_to((w.len() - 1) as nat);
    }
    assert(w =~= seq!['0']);
}

/// Two decimals have one shortest form exactly when they denote the same number, and
/// the shortest form is its own shortest form, a decimal that denotes that number.
pub proof fn canonical_form_is_the_number(a: Seq<char>, b: Seq<char>)
    requires
        is_decimal(a),
        is_decimal(b),
    ensures
        canonical(a) is Some,
        canonical(b) is Some,
        canonical(a) == canonical(b) <==> same_number(a, b),
        canonical(canonical(a)->0) == canonical(a),
        is_decimal(canonical(a)->0),
        same_number(a, canonical(a)->0),
{
    lemma_canonical_denotes(a);
    lemma_canonical_denotes(b);
    let c = canonical(a)->0;
    lemma_same_number_same_form(a, c);
    if same_number(a, b) {
        lemma_same_number_same_form(a, b);
    }
    if canonical(a) == canonical(b) {
        let x = signed_units(a);
        let y = signed_units(b);
        let z = signed_units(c);
        let f = ten_to(fraction_part(a).len());
        let g = ten_to(fraction_part(b).len());
        let h = ten_to(fraction_part(c).len());
        lemma_ten_to(fraction_part(c).len());
        assert(x * h == z * f);
        assert(y * h == z * g);
        assert((x * g) * h == (x * h) * g) by (nonlinear_arith);
        assert((z * f) * g == (z * g) * f) by (nonlinear_arith);
        assert((y * h) * f == (y * f) * h) by (nonlinear_arith);
        let left = x * g;
        let right = y * f;
        assert(left == right) by (nonlinear_arith)
            requires
                left * h == right * h,
                h > 0,
        ;
    }
}

} // verus!
