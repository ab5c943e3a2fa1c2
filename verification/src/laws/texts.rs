//! What texts say: numbers, prices, percentages, addresses.

use vstd::prelude::*;
use vstd::std_specs::ops::SubSpec;

use crate::fixed::{opposite, padded, price_written, Price, PriceError};
use crate::journal::blank;
use crate::mapping::canonical;
use crate::numbers::{is_decimal, lemma_ten_to, lemma_ten_to_adds, lemma_value_adds, ten_to};
use crate::pascal::{read_address, PascalFaultModel};
use crate::text::{
    all_digits, all_white, digit, digits_value, i64_written, lemma_length_before, lemma_trimmed,
    length_before, split_first, stands_at, text_less, trim_end, trim_start, trimmed, u64_written,
    white_space,
};
use crate::txline::{address, padded_to_four, percentage, without_end_slashes};

verus! {

/// Trimming takes white space from both ends and nothing else: what is left neither begins
/// nor ends with any.
pub proof fn trimming_takes_white_space_alone(s: Seq<char>) -> (ends: (Seq<char>, Seq<char>))
    ensures
        ({
            let (before, after) = ends;
            &&& s == before + trimmed(s) + after
            &&& all_white(before) && all_white(after)
            &&& trimmed(s).len() > 0 ==> !white_space(trimmed(s)[0]) && !white_space(
                trimmed(s).last(),
            )
        }),
        trimmed(s).len() == 0 <==> all_white(s),
        blank(s) <==> all_white(s),
{
    let before = lemma_trim_start(s);
    let middle = trim_start(s);
    let after = lemma_trim_end(middle);
    assert(before + trimmed(s) + after =~= s);
    if trimmed(s).len() == 0 {
        assert(s =~= before + after);
        assert forall|i: int| 0 <= i < s.len() implies white_space(#[trigger] s[i]) by {
            if i < before.len() {
                assert(s[i] == before[i]);
            } else {
                assert(s[i] == after[i - before.len()]);
            }
        }
    }
    if all_white(s) && trimmed(s).len() > 0 {
        assert(s[before.len() as int] == trimmed(s)[0]);
    }
    if trimmed(s).len() > 0 {
        assert(trimmed(s)[0] == middle[0]);
    }
    (before, after)
}

proof fn lemma_trim_start(s: Seq<char>) -> (before: Seq<char>)
    ensures
        s == before + trim_start(s),
        all_white(before),
        trim_start(s).len() > 0 ==> !white_space(trim_start(s)[0]),
    decreases s.len(),
{
    if s.len() > 0 && white_space(s[0]) {
        let rest = lemma_trim_start(s.drop_first());
        let before = seq![s[0]] + rest;
        assert(s =~= seq![s[0]] + s.drop_first());
        assert(seq![s[0]] + (rest + trim_start(s)) =~= before + trim_start(s));
        assert forall|i: int| 0 <= i < before.len() implies white_space(#[trigger] before[i]) by {
            if i > 0 {
                assert(before[i] == rest[i - 1]);
            }
        }
        before
    } else {
        assert(Seq::<char>::empty() + s =~= s);
        Seq::empty()
    }
}

proof fn lemma_trim_end(s: Seq<char>) -> (after: Seq<char>)
    ensures
        s == trim_end(s) + after,
        all_white(after),
        trim_end(s).len() > 0 ==> !white_space(trim_end(s).last()),
        trim_end(s).len() > 0 ==> trim_end(s)[0] == s[0],
    decreases s.len(),
{
    if s.len() > 0 && white_space(s.last()) {
        let rest = lemma_trim_end(s.drop_last());
        let after = rest.push(s.last());
        assert(s =~= s.drop_last().push(s.last()));
        assert((trim_end(s) + rest).push(s.last()) =~= trim_end(s) + after);
        assert forall|i: int| 0 <= i < after.len() implies white_space(#[trigger] after[i]) by {
            if i < rest.len() {
                assert(after[i] == rest[i]);
            }
        }
        after
    } else {
        assert(s + Seq::<char>::empty() =~= s);
        Seq::empty()
    }
}

/// The white space of a text are the characters that Unicode calls so: the controls from
/// tab to carriage return, the blank, the next line, the no-break space, and the spaces and
/// separators beyond them.
pub proof fn white_space_is_that_of_unicode(c: char)
    ensures
        white_space(c) <==> {
            ||| '\t' <= c <= '\r'
            ||| c == ' '
            ||| c == '\u{85}'
            ||| c == '\u{a0}'
            ||| c == '\u{1680}'
            ||| '\u{2000}' <= c <= '\u{200a}'
            ||| c == '\u{2028}'
            ||| c == '\u{2029}'
            ||| c == '\u{202f}'
            ||| c == '\u{205f}'
            ||| c == '\u{3000}'
        },
{
}

/// Texts are ordered by the first character in which they differ, and a text stands before
/// those that it begins.
pub proof fn texts_are_ordered_by_their_first_difference(
    begin: Seq<char>,
    a: char,
    b: char,
    x: Seq<char>,
    y: Seq<char>,
)
    requires
        a < b,
    ensures
        text_less(begin + seq![a] + x, begin + seq![b] + y),
        !text_less(begin + seq![b] + y, begin + seq![a] + x),
        text_less(begin, begin + seq![a] + x),
        !text_less(begin + seq![a] + x, begin),
        !text_less(begin, begin),
    decreases begin.len(),
{
    let low = begin + seq![a] + x;
    let high = begin + seq![b] + y;
    if begin.len() > 0 {
        let rest = begin.drop_first();
        texts_are_ordered_by_their_first_difference(rest, a, b, x, y);
        assert(low.drop_first() =~= rest + seq![a] + x);
        assert(high.drop_first() =~= rest + seq![b] + y);
    }
}

/// The prices of an outcome and of its opposite are one together, and prices are subtracted
/// in millionths.
pub proof fn opposite_prices_are_one_together(micros: int, a: Price, b: Price)
    ensures
        micros + opposite(micros) == 1_000_000,
        0 <= a@ <= 1_000_000 && 0 <= b@ <= 1_000_000 ==> a.sub_spec(b) + b@ == a@,
{
}

/// A text is split at the first place where a character stands, and not at all where it
/// does not.
pub proof fn texts_are_split_at_the_first(a: Seq<char>, c: char, b: Seq<char>)
    requires
        forall|i: int| 0 <= i < a.len() ==> #[trigger] a[i] != c,
    ensures
        split_first(a + seq![c] + b, c) == Some((a, b)),
        split_first(a, c) is None,
{
    let s = a + seq![c] + b;
    lemma_length_before(s, c);
    lemma_length_before(a, c);
    let n = length_before(s, c);
    assert(s[a.len() as int] == c);
    if n < a.len() {
        assert(s[n] == a[n]);
    }
    assert(s.take(n) =~= a);
    assert(s.skip(n + 1) =~= b);
    if length_before(a, c) < a.len() {
        assert(a[length_before(a, c)] == c);
    }
}

/// Each digit counts ten times what the one behind it does.
pub proof fn digits_count_by_tens(a: Seq<char>, b: Seq<char>, c: char)
    requires
        all_digits(a),
        all_digits(b),
        '0' <= c && c <= '9',
    ensures
        digits_value(a + b) == digits_value(a) * ten_to(b.len()) + digits_value(b),
        digits_value(seq![c]) == c as u32 - '0' as u32,
        digits_value(Seq::empty()) == 0,
{
    lemma_value_adds(a, b);
    assert(seq![c].drop_last() =~= Seq::<char>::empty());
    assert(digits_value(seq![c].drop_last()) == 0);
}

/// Integers are read where they are digits, with a sign in front or without, and fit in 64
/// bits. An unsigned one has no minus sign.
pub proof fn integers_are_digits_with_a_sign(digits: Seq<char>)
    requires
        all_digits(digits),
        digits.len() > 0,
    ensures
        ({
            let n = digits_value(digits);
            &&& u64_written(digits) == if n <= u64::MAX {
                Some(n as int)
            } else {
                None
            }
            &&& u64_written(seq!['+'] + digits) == u64_written(digits)
            &&& u64_written(seq!['-'] + digits) is None
            &&& i64_written(digits) == if n <= i64::MAX {
                Some(n as int)
            } else {
                None
            }
            &&& i64_written(seq!['+'] + digits) == i64_written(digits)
            &&& i64_written(seq!['-'] + digits) == if -(n as int) >= i64::MIN {
                Some(-(n as int))
            } else {
                None
            }
        }),
{
    assert(digit(digits[0]));
    let plus = seq!['+'] + digits;
    let minus = seq!['-'] + digits;
    assert(plus.drop_first() =~= digits);
    assert(minus.drop_first() =~= digits);
    assert(!digit(plus[0]) && !digit(minus[0]));
}

/// A text that is no digits, or nothing behind a sign, is no integer.
pub proof fn other_texts_are_no_integers(s: Seq<char>)
    requires
        s.len() == 0 || !(all_digits(s) || ((s[0] == '+' || s[0] == '-') && s.len() > 1
            && all_digits(s.drop_first()))),
    ensures
        u64_written(s) is None,
        i64_written(s) is None,
{
}

proof fn lemma_zeros(n: nat)
    ensures
        all_digits(Seq::new(n, |i: int| '0')),
        digits_value(Seq::new(n, |i: int| '0')) == 0,
    decreases n,
{
    let zeros = Seq::new(n, |i: int| '0');
    if n > 0 {
        lemma_zeros((n - 1) as nat);
        assert(zeros.drop_last() =~= Seq::new((n - 1) as nat, |i: int| '0'));
    }
}

proof fn lemma_point_text(whole: Seq<char>, fraction: Seq<char>)
    requires
        all_digits(whole),
        all_digits(fraction),
        whole.len() > 0,
    ensures
        ({
            let s = whole + seq!['.'] + fraction;
            &&& trimmed(s) == s
            &&& split_first(s, '.') == Some((whole, fraction))
        }),
        trimmed(whole) == whole,
        split_first(whole, '.') is None,
{
    let s = whole + seq!['.'] + fraction;
    let none = Seq::<char>::empty();
    assert(digit(whole[0]));
    assert(digit(whole[whole.len() - 1]));
    assert(s[0] == whole[0]);
    if fraction.len() > 0 {
        assert(s.last() == fraction[fraction.len() - 1]);
        assert(digit(fraction[fraction.len() - 1]));
    } else {
        assert(s.last() == '.');
    }
    lemma_trimmed(none, s, none);
    assert(none + s + none =~= s);
    lemma_trimmed(none, whole, none);
    assert(none + whole + none =~= whole);
    assert forall|i: int| 0 <= i < whole.len() implies #[trigger] whole[i] != '.' by {
        assert(digit(whole[i]));
    }
    texts_are_split_at_the_first(whole, '.', fraction);
}

/// A decimal price is its number in millionths, without rounding: digits, and up to six more
/// behind a point. One beyond one is out of range, and one with more digits is invalid.
pub proof fn prices_are_read_without_rounding(whole: Seq<char>, fraction: Seq<char>)
    requires
        all_digits(whole),
        all_digits(fraction),
        whole.len() > 0,
        digits_value(whole) <= i64::MAX,
    ensures
        ({
            let read = price_written(whole + seq!['.'] + fraction);
            let number = digits_value(whole + fraction);
            let places = ten_to(fraction.len());
            &&& fraction.len() > 6 ==> read == Err::<int, PriceError>(PriceError::Invalid)
            &&& fraction.len() <= 6 && number > places ==> read == Err::<int, PriceError>(
                PriceError::OutOfRange,
            )
            &&& fraction.len() <= 6 && number <= places ==> read is Ok && read->Ok_0 * places
                == number * 1_000_000
            &&& fraction.len() == 0 ==> price_written(whole) == read
        }),
{
    lemma_point_text(whole, fraction);
    integers_are_digits_with_a_sign(whole);
    if fraction.len() <= 6 {
        let k = (6 - fraction.len()) as nat;
        let zeros = Seq::new(k, |i: int| '0');
        lemma_zeros(k);
        lemma_value_adds(fraction, zeros);
        lemma_value_adds(whole, fraction);
        assert(padded(fraction) == fraction + zeros);
        lemma_ten_to_adds(fraction.len(), k);
        lemma_ten_to(fraction.len());
        lemma_ten_to(k);
        assert(ten_to(6) == 1_000_000) by {
            reveal_with_fuel(ten_to, 8);
        }
        assert(fraction.len() + k == 6);
        let places = ten_to(fraction.len());
        let more = ten_to(k);
        let w = digits_value(whole) as int;
        let f = digits_value(fraction) as int;
        let micros = w * 1_000_000 + f * more;
        assert(micros * places == (w * places + f) * 1_000_000) by (nonlinear_arith)
            requires
                micros == w * 1_000_000 + f * more,
                places * more == 1_000_000,
        ;
        let number = w * places + f;
        assert(micros <= 1_000_000 <==> number <= places) by (nonlinear_arith)
            requires
                micros * places == number * 1_000_000,
                places > 0,
        ;
    }
}

/// A price is never below zero nor above one, and a number with a negative whole part is
/// none.
pub proof fn prices_lie_between_zero_and_one(s: Seq<char>, whole: Seq<char>, fraction: Seq<char>)
    requires
        all_digits(whole),
        all_digits(fraction),
        digits_value(whole) > 0,
    ensures
        price_written(s) is Ok ==> 0 <= price_written(s)->Ok_0 <= 1_000_000,
        price_written(seq!['-'] + whole + seq!['.'] + fraction) == Err::<int, PriceError>(
            PriceError::Invalid,
        ),
{
    let minus = seq!['-'] + whole;
    let written = minus + seq!['.'] + fraction;
    let none = Seq::<char>::empty();
    integers_are_digits_with_a_sign(whole);
    assert forall|i: int| 0 <= i < minus.len() implies #[trigger] minus[i] != '.' by {
        if i > 0 {
            assert(minus[i] == whole[i - 1]);
            assert(digit(whole[i - 1]));
        }
    }
    texts_are_split_at_the_first(minus, '.', fraction);
    if fraction.len() > 0 {
        assert(written.last() == fraction[fraction.len() - 1]);
        assert(digit(fraction[fraction.len() - 1]));
    } else {
        assert(written.last() == '.');
    }
    lemma_trimmed(none, written, none);
    assert(none + written + none =~= written);
}

/// A percentage is a probability of a hundredth of its number, in millionths and without
/// rounding: digits, and up to four more behind a point, up to one hundred.
pub proof fn percentages_are_hundredths(whole: Seq<char>, fraction: Seq<char>)
    requires
        all_digits(whole),
        all_digits(fraction),
        whole.len() > 0,
    ensures
        ({
            let read = percentage(whole + seq!['.'] + fraction);
            let number = digits_value(whole + fraction);
            let places = ten_to(fraction.len());
            &&& read is Some <==> fraction.len() <= 4 && number <= 100 * places
            &&& read is Some ==> read->0 * places == number * 10_000
            &&& fraction.len() == 0 ==> percentage(whole) == read
        }),
{
    lemma_point_text(whole, fraction);
    if fraction.len() <= 4 {
        let k = (4 - fraction.len()) as nat;
        let zeros = Seq::new(k, |i: int| '0');
        lemma_zeros(k);
        lemma_value_adds(fraction, zeros);
        lemma_value_adds(whole, fraction);
        assert(padded_to_four(fraction) == fraction + zeros);
        lemma_ten_to_adds(fraction.len(), k);
        lemma_ten_to(fraction.len());
        lemma_ten_to(k);
        assert(ten_to(4) == 10_000) by {
            reveal_with_fuel(ten_to, 6);
        }
        assert(fraction.len() + k == 4);
        let places = ten_to(fraction.len());
        let more = ten_to(k);
        let w = digits_value(whole) as int;
        let f = digits_value(fraction) as int;
        let micros = w * 10_000 + f * more;
        assert(micros * places == (w * places + f) * 10_000) by (nonlinear_arith)
            requires
                micros == w * 10_000 + f * more,
                places * more == 10_000,
        ;
        let number = w * places + f;
        assert(micros <= 1_000_000 <==> number <= 100 * places) by (nonlinear_arith)
            requires
                micros * places == number * 10_000,
                places > 0,
        ;
    }
}

/// An address is the origin, without the slashes it ends with, and then the path.
pub proof fn addresses_join_origin_and_path(origin: Seq<char>, path: Seq<char>, slashes: nat)
    requires
        origin.len() > 0 ==> origin.last() != '/',
    ensures
        address(origin + Seq::new(slashes, |i: int| '/'), path) == origin + path,
{
    lemma_slashes(origin, slashes);
}

proof fn lemma_slashes(origin: Seq<char>, slashes: nat)
    requires
        origin.len() > 0 ==> origin.last() != '/',
    ensures
        without_end_slashes(origin + Seq::new(slashes, |i: int| '/')) == origin,
    decreases slashes,
{
    let all = origin + Seq::new(slashes, |i: int| '/');
    if slashes == 0 {
        assert(all =~= origin);
    } else {
        lemma_slashes(origin, (slashes - 1) as nat);
        assert(all.drop_last() =~= origin + Seq::new((slashes - 1) as nat, |i: int| '/'));
        assert(all.last() == '/');
    }
}

/// The read API of a web socket is on the same host: with TLS where the web socket has it,
/// without it where it has not, and with none of the path.
pub proof fn read_addresses_keep_the_host(host: Seq<char>, path: Seq<char>)
    requires
        host.len() > 0,
        forall|i: int| 0 <= i < host.len() ==> #[trigger] host[i] != '/',
        path.len() > 0 ==> path[0] == '/',
    ensures
        read_address("wss://"@ + host + path) == Ok::<Seq<char>, PascalFaultModel>(
            "https://"@ + host,
        ),
        read_address("ws://"@ + host + path) == Ok::<Seq<char>, PascalFaultModel>(
            "http://"@ + host,
        ),
{
    reveal_strlit("wss://");
    reveal_strlit("ws://");
    reveal_strlit("https");
    reveal_strlit("http");
    reveal_strlit("://");
    reveal_strlit("https://");
    reveal_strlit("http://");
    let rest = host + path;
    lemma_length_before(rest, '/');
    let n = length_before(rest, '/');
    if n < host.len() {
        assert(rest[n] == host[n]);
    }
    if path.len() > 0 {
        assert(rest[host.len() as int] == '/');
    }
    assert(n == host.len());
    assert(rest.take(n) =~= host);
    let secure = "wss://"@ + host + path;
    let plain = "ws://"@ + host + path;
    assert(secure.subrange(0, 6) =~= seq!['w', 's', 's', ':', '/', '/']);
    assert(secure.skip(6) =~= rest);
    assert(plain.subrange(0, 5) =~= seq!['w', 's', ':', '/', '/']);
    assert(plain.skip(5) =~= rest);
    assert(!stands_at(plain, seq!['w', 's', 's', ':', '/', '/'], 0)) by {
        if plain.len() >= 6 {
            assert(plain.subrange(0, 6)[2] == plain[2]);
            assert(plain[2] == ':');
        }
    }
    assert("https"@ + "://"@ + host =~= "https://"@ + host);
    assert("http"@ + "://"@ + host =~= "http://"@ + host);
}

/// What is read as an unsigned integer fits in 64 bits.
pub proof fn unsigned_texts_fit(s: Seq<char>)
    ensures
        u64_written(s) matches Some(n) ==> 0 <= n <= u64::MAX,
{
}

/// Of the texts without white space at their ends, exactly the decimals have a shortest
/// form. A plus sign in front of a minus sign is passed over, and so is white space at the
/// ends.
pub proof fn only_decimals_have_a_shortest_form(s: Seq<char>, before: Seq<char>, after: Seq<char>)
    requires
        s.len() > 0,
        !white_space(s[0]),
        !white_space(s.last()),
        all_white(before),
        all_white(after),
    ensures
        canonical(before + s + after) == canonical(s),
        !(s.len() > 1 && s[0] == '+' && s[1] == '-') ==> (canonical(s) is Some <==> is_decimal(s)),
        s.len() > 1 && s[0] == '+' && s[1] == '-' ==> canonical(s) == canonical(s.drop_first()),
{
    let none = Seq::<char>::empty();
    lemma_trimmed(before, s, after);
    lemma_trimmed(none, s, none);
    assert(none + s + none =~= s);
    if s.len() > 1 && s[0] == '+' && s[1] == '-' {
        let rest = s.drop_first();
        assert(rest[0] == '-');
        assert(rest.last() == s.last());
        lemma_trimmed(none, rest, none);
        assert(none + rest + none =~= rest);
    }
}

} // verus!
