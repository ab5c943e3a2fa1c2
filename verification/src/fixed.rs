//! Fixed-point prices and saturating arithmetic.
//!
//! Probabilities, prices, rates, fees, edge, notional and profit are integers
//! that count millionths.

use vstd::prelude::*;

use crate::text::{
    all_digits, all_white, decimal, decimal_reads_back, digit, digit_char, digits_capped,
    digits_value, i64_written, lemma_length_before, lemma_trimmed, length_before, only_digits,
    parse_i64, push_decimal, split_at_first, split_first, to_chars, trim, trimmed, white_space,
};

verus! {

/// The number of millionths in one.
pub const SCALE: i64 = 1_000_000;

/// Why a value is no price.
#[derive(Clone, Copy, Debug, PartialEq, Eq, Structural)]
pub enum PriceError {
    OutOfRange,
    Invalid,
}

impl PriceError {
    /// The message shown to an operator.
    pub fn message(&self) -> (r: &'static str)
        ensures
            r@ == match *self {
                PriceError::OutOfRange => "price is outside [0, 1]"@,
                PriceError::Invalid => "invalid decimal price"@,
            },
    {
        match self {
            PriceError::OutOfRange => "price is outside [0, 1]",
            PriceError::Invalid => "invalid decimal price",
        }
    }
}

/// A probability or price between zero and one, in millionths.
#[derive(Clone, Copy, Debug, PartialEq, Eq, Structural, PartialOrd, Ord, Hash)]
pub struct Price(i64);

/// The price that a decimal text writes, in millionths.
///
/// The text is trimmed. What stands before the first point is read as a signed
/// integer, what stands after it as up to six decimal digits.
pub open spec fn price_written(text: Seq<char>) -> Result<int, PriceError> {
    let body = trimmed(text);
    let (whole, fraction) = match split_first(body, '.') {
        Some((a, b)) => (a, b),
        None => (body, Seq::empty()),
    };
    match i64_written(whole) {
        None => Err(PriceError::Invalid),
        Some(n) => if n < 0 || fraction.len() > 6 || !all_digits(fraction) {
            Err(PriceError::Invalid)
        } else {
            let micros = n * SCALE + digits_value(padded(fraction));
            if micros <= SCALE {
                Ok(micros)
            } else {
                Err(PriceError::OutOfRange)
            }
        },
    }
}

/// The price of the opposite outcome, in millionths.
pub open spec fn opposite(micros: int) -> int {
    SCALE - micros
}

/// `s` with zeros appended up to six digits.
pub open spec fn padded(s: Seq<char>) -> Seq<char> {
    s + Seq::new((6 - s.len()) as nat, |i: int| '0')
}

/// The last six decimal digits of `n`.
pub open spec fn six_digits(n: nat) -> Seq<char> {
    seq![
        digit_char(n / 100_000 % 10),
        digit_char(n / 10_000 % 10),
        digit_char(n / 1_000 % 10),
        digit_char(n / 100 % 10),
        digit_char(n / 10 % 10),
        digit_char(n % 10),
    ]
}

/// A price in decimal: the whole part, a point and six digits.
pub open spec fn price_text(micros: int) -> Seq<char> {
    decimal((micros / SCALE as int) as nat) + seq!['.'] + six_digits((micros % SCALE as int) as nat)
}

impl View for Price {
    type V = int;

    closed spec fn view(&self) -> int {
        self.0 as int
    }
}

impl Price {
    #[verifier::type_invariant]
    spec fn in_range(self) -> bool {
        0 <= self.0 <= SCALE
    }

    /// The price zero.
    pub fn zero() -> (r: Self)
        ensures
            r@ == 0,
    {
        Price(0)
    }

    /// The price one.
    pub fn one() -> (r: Self)
        ensures
            r@ == SCALE,
    {
        Price(SCALE)
    }

    /// The price of `value` millionths, if that lies between zero and one.
    pub fn from_micros(value: i64) -> (r: Result<Self, PriceError>)
        ensures
            match r {
                Ok(price) => 0 <= value <= SCALE && price@ == value,
                Err(error) => !(0 <= value <= SCALE) && error == PriceError::OutOfRange,
            },
    {
        if value < 0 || value > SCALE {
            return Err(PriceError::OutOfRange);
        }
        Ok(Price(value))
    }

    /// Reads a decimal price without rounding.
    pub fn from_decimal(value: &str) -> (r: Result<Self, PriceError>)
        ensures
            match r {
                Ok(price) => price_written(value@) == Ok::<int, PriceError>(price@),
                Err(error) => price_written(value@) == Err::<int, PriceError>(error),
            },
    {
        let chars = to_chars(value);
        let body = trim(&chars);
        let (whole, fraction) = match split_at_first(&body, '.') {
            Some(parts) => parts,
            None => (body, Vec::new()),
        };
        assert(match split_first(trimmed(value@), '.') {
            Some((a, b)) => whole@ == a && fraction@ == b,
            None => whole@ == trimmed(value@) && fraction@ =~= Seq::<char>::empty(),
        });
        let units: i64 = match parse_i64(&whole) {
            Some(units) => units,
            None => return Err(PriceError::Invalid),
        };
        if units < 0 || fraction.len() > 6 || !only_digits(&fraction) {
            return Err(PriceError::Invalid);
        }
        let mut digits = fraction;
        let ghost given = digits@;
        while digits.len() < 6
            invariant
                given.len() <= digits@.len() <= 6,
                given.len() <= 6,
                all_digits(given),
                digits@ == given + Seq::new((digits@.len() - given.len()) as nat, |i: int| '0'),
            decreases 6 - digits@.len(),
        {
            digits.push('0');
            assert(digits@ =~= given + Seq::new(
                (digits@.len() - given.len()) as nat,
                |i: int| '0',
            ));
        }
        assert(digits@ == padded(given));
        assert(all_digits(digits@));
        let micros: u128 = digits_capped(&digits);
        if units > 1 {
            return Err(PriceError::OutOfRange);
        }
        let total: u128 = units as u128 * SCALE as u128 + micros;
        if total > SCALE as u128 {
            return Err(PriceError::OutOfRange);
        }
        Price::from_micros(total as i64)
    }

    /// The price in millionths.
    pub fn micros(self) -> (r: i64)
        ensures
            r == self@,
            0 <= r <= SCALE,
    {
        proof {
            use_type_invariant(&self);
        }
        self.0
    }

    /// The distance between two prices.
    pub fn abs_diff(self, other: Self) -> (r: i64)
        ensures
            r == if self@ >= other@ {
                self@ - other@
            } else {
                other@ - self@
            },
            0 <= r <= SCALE,
    {
        let a: i64 = self.micros();
        let b: i64 = other.micros();
        if a >= b {
            a - b
        } else {
            b - a
        }
    }

    /// The price of the opposite outcome.
    pub fn complement(self) -> (r: Self)
        ensures
            r@ == opposite(self@),
    {
        proof {
            use_type_invariant(&self);
        }
        Price(SCALE - self.0)
    }

    /// The price in decimal, with six digits after the point.
    pub fn to_string(&self) -> (r: String)
        ensures
            r@ == price_text(self@),
    {
        let micros: u64 = self.micros() as u64;
        let mut out = String::new();
        push_decimal(&mut out, micros / 1_000_000);
        let rest: u64 = micros % 1_000_000;
        out.push('.');
        push_decimal(&mut out, rest / 100_000 % 10);
        push_decimal(&mut out, rest / 10_000 % 10);
        push_decimal(&mut out, rest / 1_000 % 10);
        push_decimal(&mut out, rest / 100 % 10);
        push_decimal(&mut out, rest / 10 % 10);
        push_decimal(&mut out, rest % 10);
        assert(out@ =~= price_text(self@));
        out
    }
}

impl Default for Price {
    fn default() -> (r: Self)
        ensures
            r@ == 0,
    {
        Price(0)
    }
}

impl vstd::std_specs::ops::SubSpecImpl for Price {
    open spec fn obeys_sub_spec() -> bool {
        true
    }

    open spec fn sub_req(self, rhs: Self) -> bool {
        true
    }

    open spec fn sub_spec(self, rhs: Self) -> i64 {
        (self@ - rhs@) as i64
    }
}

impl core::ops::Sub for Price {
    type Output = i64;

    fn sub(self, rhs: Self) -> (r: i64) {
        self.micros() - rhs.micros()
    }
}

/// The prices of an optional price.
pub open spec fn price_option(value: Option<Price>) -> Option<int> {
    match value {
        Some(price) => Some(price@),
        None => None,
    }
}

/// The complement of a complement is the price itself, and the complement of a
/// price is a price.
pub proof fn complement_undoes_itself(micros: int)
    requires
        0 <= micros <= SCALE,
    ensures
        opposite(opposite(micros)) == micros,
        0 <= opposite(micros) <= SCALE,
{
}

/// A price in decimal with no more than `kept` digits behind the point.
pub open spec fn short_price_text(micros: int, kept: int) -> Seq<char> {
    decimal((micros / SCALE as int) as nat) + seq!['.'] + six_digits(
        (micros % SCALE as int) as nat,
    ).take(kept)
}

/// A price written in decimal reads back as the same price, with any white space
/// around it, and also where zeros at the end of the fraction are left out. Where all
/// of the fraction is left out, the point may be left out too.
pub proof fn short_price_text_reads_back(
    micros: int,
    kept: int,
    before: Seq<char>,
    after: Seq<char>,
)
    requires
        0 <= micros <= SCALE,
        0 <= kept <= 6,
        forall|i: int|
            kept <= i < 6 ==> #[trigger] six_digits((micros % SCALE as int) as nat)[i] == '0',
        all_white(before),
        all_white(after),
    ensures
        price_written(before + short_price_text(micros, kept) + after) == Ok::<int, PriceError>(
            micros,
        ),
        kept == 0 ==> price_written(before + decimal((micros / SCALE as int) as nat) + after)
            == Ok::<int, PriceError>(micros),
{
    let units = (micros / SCALE as int) as nat;
    let whole = decimal(units);
    let rest = (micros % SCALE as int) as nat;
    let digits = six_digits(rest);
    let fraction = digits.take(kept);
    let s = short_price_text(micros, kept);
    decimal_reads_back(units);
    lemma_six_digits(rest);
    assert(whole.len() == 1);
    assert(digit(whole[0]));
    assert(s.len() == 2 + kept);
    assert(s[0] == whole[0]);
    assert(s[1] == '.');
    assert(padded(fraction) =~= digits);
    assert(all_digits(fraction)) by {
        assert forall|i: int| 0 <= i < fraction.len() implies digit(#[trigger] fraction[i]) by {
            assert(fraction[i] == digits[i]);
        }
    }
    assert(!white_space(s.last())) by {
        if kept > 0 {
            assert(s.last() == fraction[kept - 1]);
            assert(digit(fraction[kept - 1]));
        }
    }
    lemma_trimmed(before, s, after);
    assert(length_before(s, '.') == 1) by {
        lemma_length_before(s, '.');
    }
    assert(s.take(1) =~= whole);
    assert(s.skip(2) =~= fraction);
    if kept == 0 {
        lemma_trimmed(before, whole, after);
        assert(length_before(whole, '.') == 1) by {
            lemma_length_before(whole, '.');
        }
        assert(fraction =~= Seq::<char>::empty());
    }
}

/// A price written in decimal reads back as the same price.
pub proof fn price_text_reads_back(micros: int)
    requires
        0 <= micros <= SCALE,
    ensures
        price_written(price_text(micros)) == Ok::<int, PriceError>(micros),
{
    let none = Seq::<char>::empty();
    short_price_text_reads_back(micros, 6, none, none);
    let digits = six_digits((micros % SCALE as int) as nat);
    assert(digits.take(6) =~= digits);
    assert(none + short_price_text(micros, 6) + none =~= price_text(micros));
}

proof fn lemma_push_digit(s: Seq<char>, d: nat)
    requires
        d < 10,
    ensures
        digits_value(s.push(digit_char(d))) == digits_value(s) * 10 + d,
{
    assert(s.push(digit_char(d)).drop_last() =~= s);
}

proof fn lemma_six_digits(n: nat)
    requires
        n < 1_000_000,
    ensures
        all_digits(six_digits(n)),
        digits_value(six_digits(n)) == n,
{
    let e = Seq::<char>::empty();
    let s1 = e.push(digit_char(n / 100_000 % 10));
    let s2 = s1.push(digit_char(n / 10_000 % 10));
    let s3 = s2.push(digit_char(n / 1_000 % 10));
    let s4 = s3.push(digit_char(n / 100 % 10));
    let s5 = s4.push(digit_char(n / 10 % 10));
    let s6 = s5.push(digit_char(n % 10));
    lemma_push_digit(e, n / 100_000 % 10);
    lemma_push_digit(s1, n / 10_000 % 10);
    lemma_push_digit(s2, n / 1_000 % 10);
    lemma_push_digit(s3, n / 100 % 10);
    lemma_push_digit(s4, n / 10 % 10);
    lemma_push_digit(s5, n % 10);
    assert(six_digits(n) =~= s6);
    assert(digits_value(e) == 0);
    assert(digits_value(s1) == n / 100_000);
    assert(digits_value(s2) == n / 10_000);
    assert(digits_value(s3) == n / 1_000);
    assert(digits_value(s4) == n / 100);
    assert(digits_value(s5) == n / 10);
}

/// `x` held within the range of a 64-bit signed integer.
pub open spec fn sat(x: int) -> int {
    if x < i64::MIN {
        i64::MIN as int
    } else if x > i64::MAX {
        i64::MAX as int
    } else {
        x
    }
}

/// `x` held within the range of a 64-bit unsigned integer.
pub open spec fn usat(x: int) -> int {
    if x < 0 {
        0
    } else if x > u64::MAX {
        u64::MAX as int
    } else {
        x
    }
}

/// The absolute value.
pub open spec fn abs(x: int) -> int {
    if x < 0 {
        -x
    } else {
        x
    }
}

/// The smaller of two integers.
pub open spec fn least(a: int, b: int) -> int {
    if a <= b {
        a
    } else {
        b
    }
}

/// The larger of two integers.
pub open spec fn greatest(a: int, b: int) -> int {
    if a >= b {
        a
    } else {
        b
    }
}

/// Division that rounds toward zero.
pub open spec fn quotient(a: int, b: int) -> int {
    if (a < 0) == (b < 0) {
        abs(a) / abs(b)
    } else {
        -(abs(a) / abs(b))
    }
}

/// The signed reading of a 64-bit word.
pub open spec fn as_signed(x: int) -> int {
    if x <= i64::MAX {
        x
    } else {
        x - 0x1_0000_0000_0000_0000
    }
}

fn clamp_i128(x: i128) -> (r: i64)
    ensures
        r == sat(x as int),
{
    if x < i64::MIN as i128 {
        i64::MIN
    } else if x > i64::MAX as i128 {
        i64::MAX
    } else {
        x as i64
    }
}

/// Addition that stops at the ends of the range.
pub fn sat_add(a: i64, b: i64) -> (r: i64)
    ensures
        r == sat(a + b),
{
    clamp_i128(a as i128 + b as i128)
}

/// Subtraction that stops at the ends of the range.
pub fn sat_sub(a: i64, b: i64) -> (r: i64)
    ensures
        r == sat(a - b),
{
    clamp_i128(a as i128 - b as i128)
}

/// Multiplication that stops at the ends of the range.
pub fn sat_mul(a: i64, b: i64) -> (r: i64)
    ensures
        r == sat(a * b),
{
    assert(-0x4000_0000_0000_0000_0000_0000_0000_0000 <= a * b
        <= 0x4000_0000_0000_0000_0000_0000_0000_0000) by (nonlinear_arith)
        requires
            -0x8000_0000_0000_0000 <= a <= 0x8000_0000_0000_0000,
            -0x8000_0000_0000_0000 <= b <= 0x8000_0000_0000_0000,
    ;
    clamp_i128(a as i128 * b as i128)
}

/// The absolute value as an unsigned integer.
pub fn magnitude(x: i64) -> (r: u64)
    ensures
        r == abs(x as int),
{
    if x < 0 {
        (0i128 - x as i128) as u64
    } else {
        x as u64
    }
}

/// Division toward zero that stops at the ends of the range.
pub fn sat_div(a: i64, b: i64) -> (r: i64)
    requires
        b != 0,
    ensures
        r == sat(quotient(a as int, b as int)),
{
    let x: u64 = magnitude(a);
    let y: u64 = magnitude(b);
    let q: u64 = x / y;
    if (a < 0) == (b < 0) {
        clamp_i128(q as i128)
    } else {
        clamp_i128(0i128 - q as i128)
    }
}

/// The signed reading of a 64-bit word.
pub fn to_signed(x: u64) -> (r: i64)
    ensures
        r == as_signed(x as int),
{
    if x <= 0x7fff_ffff_ffff_ffff {
        x as i64
    } else {
        (x as i128 - 0x1_0000_0000_0000_0000i128) as i64
    }
}

/// The smaller of two unsigned integers.
pub fn min_u64(a: u64, b: u64) -> (r: u64)
    ensures
        r == least(a as int, b as int),
{
    if a <= b {
        a
    } else {
        b
    }
}

} // verus!
