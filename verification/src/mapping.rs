//! Discovery: which Pascal market and TxLINE outcome belong together.
//!
//! Both participants, the start time, the period of the market, the numeric line
//! where there is one and the outcome have to agree.

use vstd::prelude::*;
use vstd::string::StringExecFns;

use crate::fixed::{abs, usat};
use crate::journal::{
    blank, is_blank, MappingModel, MarketMapping, SelectionModel, TxLineMarketSelection,
};
use crate::order::{in_order, lemma_placed, ordering_keeps_the_property, orders, those};
use crate::pascal::{market_models, PascalMarket, PascalMarketModel};
use crate::text::{
    all_digits, clone_text, contains, digit, from_chars, lemma_text_less, occurs_in, only_digits,
    parse_u64, same, same_text, slice_of, split_at_first, split_first, text_before, text_less,
    text_option, to_chars, trim, trimmed, u64_written,
};
use crate::txline::{
    fixture_models, odds_line_models, texts, FixtureModel, OddsLineModel, TxLineFixture,
    TxLineOddsLine,
};

verus! {

/// Whether `c` is a letter of the English alphabet.
pub open spec fn letter(c: char) -> bool {
    'a' <= c <= 'z' || 'A' <= c <= 'Z'
}

/// A capital letter of the English alphabet made small.
pub open spec fn small(c: char) -> char {
    if 'A' <= c <= 'Z' {
        (c as u32 + 32) as char
    } else {
        c
    }
}

fn is_letter(c: char) -> (r: bool)
    ensures
        r == letter(c),
{
    ('a' <= c && c <= 'z') || ('A' <= c && c <= 'Z')
}

fn is_digit(c: char) -> (r: bool)
    ensures
        r == digit(c),
{
    '0' <= c && c <= '9'
}

fn to_small(c: char) -> (r: char)
    ensures
        r == small(c),
{
    if 'A' <= c && c <= 'Z' {
        (c as u8 + 32) as char
    } else {
        c
    }
}

/// The letters and digits of a text, in small letters.
pub open spec fn normalized(s: Seq<char>) -> Seq<char>
    decreases s.len(),
{
    if s.len() == 0 {
        Seq::empty()
    } else {
        let rest = normalized(s.drop_last());
        if letter(s.last()) || digit(s.last()) {
            rest.push(small(s.last()))
        } else {
            rest
        }
    }
}

/// Keeps the letters and digits of a text, in small letters.
pub fn normalize(value: &str) -> (r: Vec<char>)
    ensures
        r@ == normalized(value@),
{
    let chars = to_chars(value);
    let mut out: Vec<char> = Vec::new();
    let mut i: usize = 0;
    assert(chars@.take(0) =~= Seq::<char>::empty());
    while i < chars.len()
        invariant
            i <= chars@.len(),
            out@ == normalized(chars@.take(i as int)),
        decreases chars@.len() - i,
    {
        assert(chars@.take(i + 1).drop_last() =~= chars@.take(i as int));
        assert(chars@.take(i + 1).last() == chars@[i as int]);
        if is_letter(chars[i]) || is_digit(chars[i]) {
            out.push(to_small(chars[i]));
        }
        i = i + 1;
    }
    assert(chars@.take(i as int) =~= chars@);
    out
}

/// Whether a word stands in a text.
fn has(text: &[char], word: &str) -> (r: bool)
    ensures
        r == occurs_in(word@, text@),
{
    let chars = to_chars(word);
    contains(text, &chars)
}

/// Whether a text is a word.
fn is_word(text: &[char], word: &str) -> (r: bool)
    ensures
        r == (text@ == word@),
{
    let chars = to_chars(word);
    same(text, &chars)
}

/// `s` without the characters `c` it begins with.
pub open spec fn without_leading(s: Seq<char>, c: char) -> Seq<char>
    decreases s.len(),
{
    if s.len() > 0 && s[0] == c {
        without_leading(s.drop_first(), c)
    } else {
        s
    }
}

/// `s` without the characters `c` it ends with.
pub open spec fn without_trailing(s: Seq<char>, c: char) -> Seq<char>
    decreases s.len(),
{
    if s.len() > 0 && s.last() == c {
        without_trailing(s.drop_last(), c)
    } else {
        s
    }
}

fn strip_leading(s: &Vec<char>, c: char) -> (r: Vec<char>)
    ensures
        r@ == without_leading(s@, c),
{
    let mut from: usize = 0;
    assert(s@.skip(0) =~= s@);
    while from < s.len() && s[from] == c
        invariant
            from <= s@.len(),
            without_leading(s@, c) == without_leading(s@.skip(from as int), c),
        decreases s@.len() - from,
    {
        assert(s@.skip(from as int).drop_first() =~= s@.skip(from + 1));
        from = from + 1;
    }
    let out = slice_of(s, from, s.len());
    assert(out@ =~= s@.skip(from as int));
    out
}

fn strip_trailing(s: &Vec<char>, c: char) -> (r: Vec<char>)
    ensures
        r@ == without_trailing(s@, c),
{
    let mut to: usize = s.len();
    assert(s@.take(to as int) =~= s@);
    while to > 0 && s[to - 1] == c
        invariant
            to <= s@.len(),
            without_trailing(s@, c) == without_trailing(s@.take(to as int), c),
        decreases to,
    {
        assert(s@.take(to as int).drop_last() =~= s@.take(to - 1));
        to = to - 1;
    }
    let out = slice_of(s, 0, to);
    assert(out@ =~= s@.take(to as int));
    out
}

/// The magnitude of a decimal number in its shortest form.
pub open spec fn shortest(integer: Seq<char>, fraction: Seq<char>) -> Seq<char> {
    let whole = if without_leading(integer, '0').len() == 0 {
        seq!['0']
    } else {
        without_leading(integer, '0')
    };
    let part = without_trailing(fraction, '0');
    if part.len() == 0 {
        whole
    } else {
        whole + seq!['.'] + part
    }
}

/// A decimal number in its shortest form, if the text is one. A sign may stand in
/// front; zero has none.
pub open spec fn canonical(text: Seq<char>) -> Option<Seq<char>> {
    let body = trimmed(text);
    let unsigned = if body.len() > 0 && body[0] == '+' {
        body.drop_first()
    } else {
        body
    };
    let negative = unsigned.len() > 0 && unsigned[0] == '-';
    let number = if negative {
        unsigned.drop_first()
    } else {
        unsigned
    };
    let (integer, fraction) = match split_first(number, '.') {
        Some((a, b)) => (a, b),
        None => (number, Seq::empty()),
    };
    if integer.len() == 0 || !all_digits(integer) || !all_digits(fraction) {
        None
    } else {
        let magnitude = shortest(integer, fraction);
        if negative && magnitude != seq!['0'] {
            Some(seq!['-'] + magnitude)
        } else {
            Some(magnitude)
        }
    }
}

/// The model of characters that may be there.
pub open spec fn chars_option(value: Option<Vec<char>>) -> Option<Seq<char>> {
    match value {
        Some(v) => Some(v@),
        None => None,
    }
}

fn append(out: &mut Vec<char>, more: &Vec<char>)
    ensures
        final(out)@ == old(out)@ + more@,
{
    let mut i: usize = 0;
    assert(old(out)@ + more@.take(0) =~= old(out)@);
    while i < more.len()
        invariant
            i <= more@.len(),
            out@ == old(out)@ + more@.take(i as int),
        decreases more@.len() - i,
    {
        out.push(more[i]);
        i = i + 1;
        assert(old(out)@ + more@.take(i as int) =~= (old(out)@ + more@.take(i - 1)).push(
            more@[i - 1],
        ));
    }
    assert(more@.take(i as int) =~= more@);
}

/// Brings a decimal number into its shortest form.
pub fn canonical_number(value: &[char]) -> (r: Option<Vec<char>>)
    ensures
        chars_option(r) == canonical(value@),
{
    let body = trim(value);
    let unsigned = if body.len() > 0 && body[0] == '+' {
        let rest = slice_of(&body, 1, body.len());
        assert(rest@ =~= body@.drop_first());
        rest
    } else {
        body
    };
    let negative = unsigned.len() > 0 && unsigned[0] == '-';
    let number = if negative {
        let rest = slice_of(&unsigned, 1, unsigned.len());
        assert(rest@ =~= unsigned@.drop_first());
        rest
    } else {
        slice_of(&unsigned, 0, unsigned.len())
    };
    assert(!negative ==> number@ =~= unsigned@);
    let ghost whole = number@;
    let (integer, fraction) = match split_at_first(&number, '.') {
        Some(parts) => parts,
        None => (number, Vec::new()),
    };
    assert(match split_first(whole, '.') {
        Some((a, b)) => integer@ == a && fraction@ == b,
        None => integer@ == whole && fraction@ =~= Seq::<char>::empty(),
    });
    if integer.len() == 0 || !only_digits(&integer) || !only_digits(&fraction) {
        return None;
    }
    let mut magnitude = strip_leading(&integer, '0');
    if magnitude.len() == 0 {
        magnitude.push('0');
        assert(magnitude@ =~= seq!['0']);
    }
    let part = strip_trailing(&fraction, '0');
    if part.len() > 0 {
        let ghost before = magnitude@;
        magnitude.push('.');
        append(&mut magnitude, &part);
        assert(magnitude@ =~= before + seq!['.'] + part@);
    }
    assert(magnitude@ == shortest(integer@, fraction@));
    let zero: [char; 1] = ['0'];
    assert(zero@ =~= seq!['0']);
    if negative && !same(&magnitude, &zero) {
        let mut out: Vec<char> = Vec::new();
        out.push('-');
        append(&mut out, &magnitude);
        assert(out@ =~= seq!['-'] + magnitude@);
        Some(out)
    } else {
        Some(magnitude)
    }
}

/// The search for numbers in a text, up to some point: where the number at hand
/// begins, and the numbers that have ended.
pub struct NumberScan {
    pub start: Option<int>,
    pub numbers: Seq<Seq<char>>,
}

/// The search after the first `count` characters. Digits and points belong to a
/// number, a minus sign begins one, and a letter right behind it spoils it.
pub open spec fn number_scan(s: Seq<char>, count: int) -> NumberScan
    decreases count,
{
    if count <= 0 {
        NumberScan { start: None, numbers: Seq::empty() }
    } else {
        let before = number_scan(s, count - 1);
        let c = s[count - 1];
        if digit(c) || (c == '-' && before.start is None) || c == '.' {
            NumberScan {
                start: Some(
                    match before.start {
                        Some(at) => at,
                        None => count - 1,
                    },
                ),
                ..before
            }
        } else {
            match before.start {
                None => before,
                Some(at) => NumberScan {
                    start: None,
                    numbers: if letter(c) {
                        before.numbers
                    } else {
                        match canonical(s.subrange(at, count - 1)) {
                            Some(n) => before.numbers.push(n),
                            None => before.numbers,
                        }
                    },
                },
            }
        }
    }
}

/// The numbers in a text, in their shortest form.
pub open spec fn numbers_in(s: Seq<char>) -> Seq<Seq<char>> {
    let end = number_scan(s, s.len() as int);
    match end.start {
        Some(at) => match canonical(s.skip(at)) {
            Some(n) => end.numbers.push(n),
            None => end.numbers,
        },
        None => end.numbers,
    }
}

/// The models of some texts.
pub open spec fn char_models(s: Seq<Vec<char>>) -> Seq<Seq<char>> {
    Seq::new(s.len(), |i: int| s[i]@)
}

/// Finds the numbers in a text.
fn find_numbers(value: &Vec<char>) -> (r: Vec<Vec<char>>)
    ensures
        char_models(r@) == numbers_in(value@),
{
    let mut numbers: Vec<Vec<char>> = Vec::new();
    let mut start: Option<usize> = None;
    let mut i: usize = 0;
    assert(char_models(numbers@) =~= Seq::<Seq<char>>::empty());
    while i < value.len()
        invariant
            i <= value@.len(),
            ({
                let s = number_scan(value@, i as int);
                &&& char_models(numbers@) == s.numbers
                &&& s.start == match start {
                    Some(at) => Some(at as int),
                    None => None,
                }
                &&& start matches Some(at) ==> at <= i
            }),
        decreases value@.len() - i,
    {
        let c = value[i];
        let ghost before = numbers@;
        if is_digit(c) || (c == '-' && start.is_none()) || c == '.' {
            if start.is_none() {
                start = Some(i);
            }
        } else if let Some(at) = start {
            start = None;
            if !is_letter(c) {
                let word = slice_of(value, at, i);
                if let Some(number) = canonical_number(&word) {
                    numbers.push(number);
                    assert(char_models(numbers@) =~= char_models(before).push(number@));
                }
            }
        }
        i = i + 1;
    }
    if let Some(at) = start {
        let word = slice_of(value, at, value.len());
        assert(word@ =~= value@.skip(at as int));
        let ghost before = numbers@;
        if let Some(number) = canonical_number(&word) {
            numbers.push(number);
            assert(char_models(numbers@) =~= char_models(before).push(number@));
        }
    }
    numbers
}

/// Finds the numbers in a text, in their shortest form.
pub fn extract_numbers(value: &str) -> (r: Vec<String>)
    ensures
        texts(r@) == numbers_in(value@),
{
    let chars = to_chars(value);
    let found = find_numbers(&chars);
    let mut out: Vec<String> = Vec::new();
    let mut i: usize = 0;
    while i < found.len()
        invariant
            i <= found@.len(),
            out@.len() == i,
            forall|j: int| 0 <= j < i ==> (#[trigger] out@[j])@ == found@[j]@,
        decreases found@.len() - i,
    {
        out.push(from_chars(&found[i]));
        i = i + 1;
    }
    assert(texts(out@) =~= char_models(found@));
    out
}

/// Whether a character separates two parameters.
pub open spec fn separates(c: char) -> bool {
    c == ',' || c == ';' || c == '&'
}

/// The value of the parameter `line` in one parameter, in its shortest form.
pub open spec fn line_in(parameter: Seq<char>) -> Option<Seq<char>> {
    match split_first(parameter, '=') {
        None => None,
        Some((key, value)) => if small_text(trimmed(key)) == "line"@ {
            canonical(trimmed(value))
        } else {
            None
        },
    }
}

/// A text with its capital letters made small.
pub open spec fn small_text(s: Seq<char>) -> Seq<char> {
    Seq::new(s.len(), |i: int| small(s[i]))
}

/// The value of the first parameter `line`, from position `from` on, where
/// `begin` is where the parameter at hand begins.
pub open spec fn line_from(s: Seq<char>, begin: int, from: int) -> Option<Seq<char>>
    decreases s.len() - from,
{
    if from >= s.len() || from < 0 {
        line_in(s.subrange(begin, s.len() as int))
    } else if separates(s[from]) {
        match line_in(s.subrange(begin, from)) {
            Some(line) => Some(line),
            None => line_from(s, from + 1, from + 1),
        }
    } else {
        line_from(s, begin, from + 1)
    }
}

fn read_line_parameter(parameter: &Vec<char>) -> (r: Option<Vec<char>>)
    ensures
        chars_option(r) == line_in(parameter@),
{
    match split_at_first(parameter, '=') {
        None => None,
        Some((key, value)) => {
            let name = trim(&key);
            let mut lower: Vec<char> = Vec::new();
            let mut i: usize = 0;
            while i < name.len()
                invariant
                    i <= name@.len(),
                    lower@.len() == i,
                    forall|j: int| 0 <= j < i ==> #[trigger] lower@[j] == small(name@[j]),
                decreases name@.len() - i,
            {
                lower.push(to_small(name[i]));
                i = i + 1;
            }
            assert(lower@ =~= small_text(name@));
            if is_word(&lower, "line") {
                canonical_number(&trim(&value))
            } else {
                None
            }
        },
    }
}

/// Finds the value of the parameter `line` among some parameters.
pub fn parameter_line(parameters: &Vec<char>) -> (r: Option<Vec<char>>)
    ensures
        chars_option(r) == line_from(parameters@, 0, 0),
{
    let mut begin: usize = 0;
    let mut i: usize = 0;
    while i < parameters.len()
        invariant
            begin <= i <= parameters@.len(),
            line_from(parameters@, 0, 0) == line_from(parameters@, begin as int, i as int),
        decreases parameters@.len() - i,
    {
        let c = parameters[i];
        if c == ',' || c == ';' || c == '&' {
            let parameter = slice_of(parameters, begin, i);
            if let Some(line) = read_line_parameter(&parameter) {
                return Some(line);
            }
            begin = i + 1;
        }
        i = i + 1;
    }
    let parameter = slice_of(parameters, begin, i);
    read_line_parameter(&parameter)
}

/// Whether the parameters of a TxLINE market fit a Pascal market: there are none,
/// or their line is a number in the description.
pub open spec fn parameters_fit(parameters: Seq<char>, description: Seq<char>) -> bool {
    let body = trimmed(parameters);
    body.len() == 0 || match line_from(body, 0, 0) {
        Some(line) => numbers_in(description).contains(line),
        None => false,
    }
}

/// Whether the parameters of a TxLINE market fit a Pascal market.
pub fn market_parameters_match(txline_parameters: &str, market: &PascalMarket) -> (r: bool)
    ensures
        r == parameters_fit(txline_parameters@, market@.market_description),
{
    let body = trim(&to_chars(txline_parameters));
    if body.len() == 0 {
        return true;
    }
    let line = match parameter_line(&body) {
        Some(line) => line,
        None => return false,
    };
    includes(&find_numbers(&to_chars(market.market_description.as_str())), &line)
}

fn includes(numbers: &Vec<Vec<char>>, line: &Vec<char>) -> (r: bool)
    ensures
        r == char_models(numbers@).contains(line@),
{
    let ghost all = char_models(numbers@);
    let mut i: usize = 0;
    while i < numbers.len()
        invariant
            i <= numbers@.len(),
            all == char_models(numbers@),
            forall|j: int| 0 <= j < i ==> #[trigger] all[j] != line@,
        decreases numbers@.len() - i,
    {
        assert(all[i as int] == numbers@[i as int]@);
        if same(&numbers[i], line) {
            return true;
        }
        i = i + 1;
    }
    false
}

/// What a Pascal market says of its period.
pub open spec fn pascal_period(market: PascalMarketModel) -> Seq<char> {
    normalized(market.market_period + " "@ + market.market_description)
}

/// Whether the period of a TxLINE market is that of a Pascal market.
pub open spec fn periods_agree(txline_period: Seq<char>, market: PascalMarketModel) -> bool {
    let wanted = normalized(txline_period);
    let given = pascal_period(market);
    if wanted.len() == 0 {
        !(occurs_in("half"@, given) || occurs_in("quarter"@, given) || occurs_in("period"@, given)
            || occurs_in("inning"@, given) || occurs_in("set"@, given))
    } else if occurs_in("fulltime"@, wanted) || occurs_in("regtime"@, wanted) {
        occurs_in("fulltime"@, given) || occurs_in("regtime"@, given)
    } else if occurs_in("half1"@, wanted) {
        occurs_in("firsthalf"@, given) || occurs_in("1sthalf"@, given) || occurs_in(
            "half1"@,
            given,
        )
    } else if occurs_in("half2"@, wanted) {
        occurs_in("secondhalf"@, given) || occurs_in("2ndhalf"@, given) || occurs_in(
            "half2"@,
            given,
        )
    } else {
        occurs_in(wanted, given)
    }
}

/// Whether the period of a TxLINE market is that of a Pascal market.
pub fn market_period_matches(txline_period: &str, market: &PascalMarket) -> (r: bool)
    ensures
        r == periods_agree(txline_period@, market@),
{
    let wanted = normalize(txline_period);
    let mut label = market.market_period.clone();
    label.append(" ");
    label.append(market.market_description.as_str());
    let given = normalize(label.as_str());
    if wanted.len() == 0 {
        return !(has(&given, "half") || has(&given, "quarter") || has(&given, "period") || has(
            &given,
            "inning",
        ) || has(&given, "set"));
    }
    if has(&wanted, "fulltime") || has(&wanted, "regtime") {
        return has(&given, "fulltime") || has(&given, "regtime");
    }
    if has(&wanted, "half1") {
        return has(&given, "firsthalf") || has(&given, "1sthalf") || has(&given, "half1");
    }
    if has(&wanted, "half2") {
        return has(&given, "secondhalf") || has(&given, "2ndhalf") || has(&given, "half2");
    }
    contains(&given, &wanted)
}

/// The names in a fixture, in letters and digits.
#[verifier::ext_equal]
pub struct NamesModel {
    pub home: Seq<char>,
    pub away: Seq<char>,
    pub participant_1: Seq<char>,
    pub participant_2: Seq<char>,
}

/// The participant that plays at home.
pub open spec fn home_of(fixture: FixtureModel) -> Seq<char> {
    if fixture.participant_1_is_home {
        fixture.participant_1
    } else {
        fixture.participant_2
    }
}

/// The participant that plays away.
pub open spec fn away_of(fixture: FixtureModel) -> Seq<char> {
    if fixture.participant_1_is_home {
        fixture.participant_2
    } else {
        fixture.participant_1
    }
}

/// The names in a fixture, in letters and digits.
pub open spec fn names_of(fixture: FixtureModel) -> NamesModel {
    NamesModel {
        home: normalized(home_of(fixture)),
        away: normalized(away_of(fixture)),
        participant_1: normalized(fixture.participant_1),
        participant_2: normalized(fixture.participant_2),
    }
}

/// Whether a price stands for a side of the fixture that the description names.
pub open spec fn stands_for(
    price: Seq<char>,
    description: Seq<char>,
    label: Seq<char>,
    short_label: Seq<char>,
    name: Seq<char>,
) -> bool {
    (price == label || price == short_label || occurs_in(name, price)) && occurs_in(
        name,
        description,
    )
}

/// How well a price fits the description of a market: best where the description
/// names the price itself, then where both are about the same side, then where
/// both are about a draw. Zero is no fit.
pub open spec fn fit(price: Seq<char>, description: Seq<char>, names: NamesModel) -> int {
    if occurs_in(price, description) && price.len() >= 3 {
        100
    } else if stands_for(price, description, "home"@, "1"@, names.home) || stands_for(
        price,
        description,
        "away"@,
        "2"@,
        names.away,
    ) || stands_for(price, description, "part1"@, "participant1"@, names.participant_1)
        || stands_for(price, description, "part2"@, "participant2"@, names.participant_2) {
        90
    } else if (price == "draw"@ || price == "tie"@ || price == "x"@) && (occurs_in(
        "draw"@,
        description,
    ) || occurs_in("tie"@, description)) {
        80
    } else {
        0
    }
}

struct Names {
    home: Vec<char>,
    away: Vec<char>,
    participant_1: Vec<char>,
    participant_2: Vec<char>,
}

impl View for Names {
    type V = NamesModel;

    closed spec fn view(&self) -> NamesModel {
        NamesModel {
            home: self.home@,
            away: self.away@,
            participant_1: self.participant_1@,
            participant_2: self.participant_2@,
        }
    }
}

/// The participant that plays at home.
pub fn home_participant(fixture: &TxLineFixture) -> (r: String)
    ensures
        r@ == home_of(fixture@),
{
    if fixture.participant_1_is_home {
        fixture.participant_1.clone()
    } else {
        fixture.participant_2.clone()
    }
}

/// The participant that plays away.
pub fn away_participant(fixture: &TxLineFixture) -> (r: String)
    ensures
        r@ == away_of(fixture@),
{
    if fixture.participant_1_is_home {
        fixture.participant_2.clone()
    } else {
        fixture.participant_1.clone()
    }
}

fn names_in(fixture: &TxLineFixture) -> (r: Names)
    ensures
        r@ == names_of(fixture@),
{
    Names {
        home: normalize(home_participant(fixture).as_str()),
        away: normalize(away_participant(fixture).as_str()),
        participant_1: normalize(fixture.participant_1.as_str()),
        participant_2: normalize(fixture.participant_2.as_str()),
    }
}

fn is_for(
    price: &Vec<char>,
    description: &Vec<char>,
    label: &str,
    short_label: &str,
    name: &Vec<char>,
) -> (r: bool)
    ensures
        r == stands_for(price@, description@, label@, short_label@, name@),
{
    (is_word(price, label) || is_word(price, short_label) || contains(price, name)) && contains(
        description,
        name,
    )
}

/// How well a price fits the description of a market.
fn outcome_score(price: &Vec<char>, description: &Vec<char>, names: &Names) -> (r: u8)
    ensures
        r == fit(price@, description@, names@),
{
    if contains(description, price) && price.len() >= 3 {
        return 100;
    }
    if is_for(price, description, "home", "1", &names.home) {
        return 90;
    }
    if is_for(price, description, "away", "2", &names.away) {
        return 90;
    }
    if is_for(price, description, "part1", "participant1", &names.participant_1) {
        return 90;
    }
    if is_for(price, description, "part2", "participant2", &names.participant_2) {
        return 90;
    }
    if (is_word(price, "draw") || is_word(price, "tie") || is_word(price, "x")) && (has(
        description,
        "draw",
    ) || has(description, "tie")) {
        return 80;
    }
    0
}

/// A price of a TxLINE market with how well it fits.
#[verifier::ext_equal]
pub struct OfferModel {
    pub score: int,
    pub selection: SelectionModel,
}

/// The offer of one price of a line.
pub open spec fn offer(
    fixture: FixtureModel,
    market: PascalMarketModel,
    line: OddsLineModel,
    index: int,
) -> OfferModel {
    OfferModel {
        score: fit(
            normalized(line.price_names[index]),
            normalized(market.market_description),
            names_of(fixture),
        ),
        selection: SelectionModel {
            super_odds_type: line.super_odds_type,
            market_parameters: line.market_parameters,
            market_period: line.market_period,
            price_index: index,
            price_name: line.price_names[index],
        },
    }
}

/// Whether a line is about the period and the numeric line of a market.
pub open spec fn line_fits(market: PascalMarketModel, line: OddsLineModel) -> bool {
    periods_agree(line.market_period, market) && parameters_fit(
        line.market_parameters,
        market.market_description,
    )
}

/// The offers of a line, none where the line does not fit.
pub open spec fn line_offers(
    fixture: FixtureModel,
    market: PascalMarketModel,
    line: OddsLineModel,
) -> Seq<OfferModel> {
    if line_fits(market, line) {
        Seq::new(line.price_names.len(), |i: int| offer(fixture, market, line, i))
    } else {
        Seq::empty()
    }
}

/// The offers of some lines.
pub open spec fn offers(
    fixture: FixtureModel,
    market: PascalMarketModel,
    lines: Seq<OddsLineModel>,
) -> Seq<OfferModel>
    decreases lines.len(),
{
    if lines.len() == 0 {
        Seq::empty()
    } else {
        offers(fixture, market, lines.drop_last()) + line_offers(fixture, market, lines.last())
    }
}

/// The best of some offers: one that fits, the first of those with the highest
/// score.
pub open spec fn best_offer(all: Seq<OfferModel>) -> Option<OfferModel>
    decreases all.len(),
{
    if all.len() == 0 {
        None
    } else {
        let before = best_offer(all.drop_last());
        let last = all.last();
        if last.score != 0 && (before is None || last.score > before->0.score) {
            Some(last)
        } else {
            before
        }
    }
}

/// The outcome that belongs to a market.
pub open spec fn outcome_for(
    fixture: FixtureModel,
    market: PascalMarketModel,
    lines: Seq<OddsLineModel>,
) -> Option<SelectionModel> {
    match best_offer(offers(fixture, market, lines)) {
        Some(best) => Some(best.selection),
        None => None,
    }
}

struct Offer {
    score: u8,
    selection: TxLineMarketSelection,
}

spec fn offer_option(value: Option<Offer>) -> Option<OfferModel> {
    match value {
        Some(o) => Some(OfferModel { score: o.score as int, selection: o.selection@ }),
        None => None,
    }
}

/// Finds the outcome that belongs to a market: of the lines with the market's
/// period and numeric line, the price that fits its description best.
pub fn select_outcome(
    fixture: &TxLineFixture,
    market: &PascalMarket,
    lines: &Vec<TxLineOddsLine>,
) -> (r: Option<TxLineMarketSelection>)
    ensures
        match r {
            Some(selection) => outcome_for(fixture@, market@, odds_line_models(lines@)) == Some(
                selection@,
            ),
            None => outcome_for(fixture@, market@, odds_line_models(lines@)) is None,
        },
{
    let names = names_in(fixture);
    let description = normalize(market.market_description.as_str());
    let ghost models = odds_line_models(lines@);
    let ghost mut seen: Seq<OfferModel> = Seq::empty();
    let mut best: Option<Offer> = None;
    let mut i: usize = 0;
    assert(models.take(0) =~= Seq::<OddsLineModel>::empty());
    while i < lines.len()
        invariant
            i <= lines@.len(),
            models == odds_line_models(lines@),
            names@ == names_of(fixture@),
            description@ == normalized(market@.market_description),
            seen == offers(fixture@, market@, models.take(i as int)),
            offer_option(best) == best_offer(seen),
        decreases lines@.len() - i,
    {
        let line = &lines[i];
        proof {
            assert(models.take(i + 1).drop_last() =~= models.take(i as int));
            assert(models.take(i + 1).last() == line@);
        }
        if market_period_matches(line.market_period.as_str(), market) && market_parameters_match(
            line.market_parameters.as_str(),
            market,
        ) {
            let ghost mine = line_offers(fixture@, market@, line@);
            let ghost start = seen;
            let mut k: usize = 0;
            assert(start + mine.take(0) =~= start);
            assert(line@.price_names.len() == line.price_names@.len());
            while k < line.price_names.len()
                invariant
                    k <= line.price_names@.len(),
                    line@.price_names.len() == line.price_names@.len(),
                    mine == line_offers(fixture@, market@, line@),
                    mine.len() == line.price_names@.len(),
                    line_fits(market@, line@),
                    names@ == names_of(fixture@),
                    description@ == normalized(market@.market_description),
                    seen == start + mine.take(k as int),
                    offer_option(best) == best_offer(seen),
                decreases line.price_names@.len() - k,
            {
                let name = &line.price_names[k];
                assert(line@.price_names[k as int] == name@);
                let score: u8 = outcome_score(
                    &normalize(name.as_str()),
                    &description,
                    &names,
                );
                assert(mine[k as int] == offer(fixture@, market@, line@, k as int));
                let wins = score != 0 && match &best {
                    Some(b) => score > b.score,
                    None => true,
                };
                proof {
                    let next = start + mine.take(k + 1);
                    assert(next.drop_last() =~= seen);
                    assert(next.last() == mine[k as int]);
                    seen = next;
                }
                if wins {
                    best = Some(
                        Offer {
                            score,
                            selection: TxLineMarketSelection {
                                super_odds_type: line.super_odds_type.clone(),
                                market_parameters: line.market_parameters.clone(),
                                market_period: line.market_period.clone(),
                                price_index: k,
                                price_name: name.clone(),
                            },
                        },
                    );
                }
                k = k + 1;
            }
            assert(mine.take(k as int) =~= mine);
        } else {
            assert(seen + line_offers(fixture@, market@, line@) =~= seen);
        }
        i = i + 1;
    }
    assert(models.take(i as int) =~= models);
    match best {
        Some(b) => Some(b.selection),
        None => None,
    }
}

/// The chosen offer fits, no other offer fits better, and every offer before it
/// fits worse. Where none is chosen, none fits.
pub proof fn best_offer_is_first_and_highest(all: Seq<OfferModel>)
    requires
        forall|i: int| 0 <= i < all.len() ==> (#[trigger] all[i]).score >= 0,
    ensures
        match best_offer(all) {
            Some(best) => exists|k: int|
                0 <= k < all.len() && #[trigger] all[k] == best && best.score > 0 && (forall|i: int|
                    0 <= i < all.len() ==> (#[trigger] all[i]).score <= best.score) && (forall|
                    i: int,
                |
                    0 <= i < k ==> (#[trigger] all[i]).score < best.score),
            None => forall|i: int| 0 <= i < all.len() ==> (#[trigger] all[i]).score == 0,
        },
    decreases all.len(),
{
    if all.len() > 0 {
        let rest = all.drop_last();
        assert forall|i: int| 0 <= i < rest.len() implies (#[trigger] rest[i]).score >= 0 by {
            assert(rest[i] == all[i]);
        }
        best_offer_is_first_and_highest(rest);
        match best_offer(rest) {
            Some(before) => {
                let k = choose|k: int|
                    0 <= k < rest.len() && #[trigger] rest[k] == before && before.score > 0 && (
                    forall|i: int| 0 <= i < rest.len() ==> (#[trigger] rest[i]).score
                        <= before.score) && (forall|i: int| 0 <= i < k ==> (
                    #[trigger] rest[i]).score < before.score);
                assert forall|i: int| 0 <= i < rest.len() implies (#[trigger] all[i]).score
                    <= before.score by {
                    assert(rest[i] == all[i]);
                }
                assert forall|i: int| 0 <= i < k implies (#[trigger] all[i]).score
                    < before.score by {
                    assert(rest[i] == all[i]);
                }
                assert(all[k] == rest[k]);
                if all.last().score > before.score {
                    assert(all[all.len() - 1] == all.last());
                }
            },
            None => {
                assert forall|i: int| 0 <= i < rest.len() implies (
                #[trigger] all[i]).score == 0 by {
                    assert(rest[i] == all[i]);
                }
                if all.last().score != 0 {
                    assert(all[all.len() - 1] == all.last());
                }
            },
        }
    }
}

/// How far two times are apart.
pub open spec fn apart(a: int, b: int) -> int {
    abs(a - b)
}

fn distance(a: u64, b: u64) -> (r: u64)
    ensures
        r == apart(a as int, b as int),
{
    if a >= b {
        a - b
    } else {
        b - a
    }
}

/// Six hours in milliseconds: how long after its start a fixture is of interest.
pub const FIXTURE_WINDOW_MS: u64 = 21_600_000;

/// Thirty-six hours in milliseconds: how far the start times of a fixture and its
/// market may be apart.
pub const START_TOLERANCE_MS: u64 = 129_600_000;

/// The state of a fixture that is over.
pub const FINISHED: u64 = 6;

/// Whether a fixture is a candidate: it is not over, it is the wanted one where
/// one is wanted, and it did not start too long ago.
pub open spec fn is_candidate(fixture: FixtureModel, wanted: Option<u64>, now_ms: int) -> bool {
    &&& fixture.game_state != Some(FINISHED)
    &&& wanted matches Some(id) ==> fixture.fixture_id == id
    &&& usat(fixture.start_time_ms + FIXTURE_WINDOW_MS) >= now_ms
}

/// The candidates among fixtures.
pub open spec fn candidacy(wanted: Option<u64>, now_ms: int) -> spec_fn(FixtureModel) -> bool {
    |fixture: FixtureModel| is_candidate(fixture, wanted, now_ms)
}

/// What fixtures are sorted by: those that have started come first, and then the
/// nearer start.
pub open spec fn fixture_rank(fixture: FixtureModel, now_ms: int) -> (int, int) {
    if fixture.start_time_ms <= now_ms {
        (0, now_ms - fixture.start_time_ms)
    } else {
        (1, fixture.start_time_ms - now_ms)
    }
}

/// Whether a pair is less than another, by its first part and then its second.
pub open spec fn less(a: (int, int), b: (int, int)) -> bool {
    a.0 < b.0 || (a.0 == b.0 && a.1 < b.1)
}

/// The order of fixtures.
pub open spec fn fixture_order(now_ms: int) -> spec_fn(FixtureModel, FixtureModel) -> bool {
    |a: FixtureModel, b: FixtureModel| less(fixture_rank(a, now_ms), fixture_rank(b, now_ms))
}

/// The fixtures to try, in the order in which they are tried.
pub open spec fn candidates(
    fixtures: Seq<FixtureModel>,
    wanted: Option<u64>,
    now_ms: int,
) -> Seq<FixtureModel> {
    in_order(those(fixtures, candidacy(wanted, now_ms)), fixture_order(now_ms))
}

/// What a fixture is sorted by.
pub fn fixture_priority(start_time_ms: u64, now_ms: u64) -> (r: (u8, u64))
    ensures
        r.0 == if start_time_ms <= now_ms {
            0int
        } else {
            1
        },
        r.1 == apart(start_time_ms as int, now_ms as int),
{
    if start_time_ms <= now_ms {
        (0, now_ms - start_time_ms)
    } else {
        (1, start_time_ms - now_ms)
    }
}

fn comes_first(a: &TxLineFixture, b: &TxLineFixture, now_ms: u64) -> (r: bool)
    ensures
        r == fixture_order(now_ms as int)(a@, b@),
{
    let x = fixture_priority(a.start_time_ms, now_ms);
    let y = fixture_priority(b.start_time_ms, now_ms);
    x.0 < y.0 || (x.0 == y.0 && x.1 < y.1)
}

/// Picks the fixtures to try, and puts them in order.
pub fn fixture_candidates(
    fixtures: Vec<TxLineFixture>,
    fixture_id_override: Option<u64>,
    now_ms: u64,
) -> (r: Vec<TxLineFixture>)
    ensures
        fixture_models(r@) == candidates(
            fixture_models(fixtures@),
            fixture_id_override,
            now_ms as int,
        ),
{
    let ghost models = fixture_models(fixtures@);
    let ghost keep = candidacy(fixture_id_override, now_ms as int);
    let ghost before = fixture_order(now_ms as int);
    let mut out: Vec<TxLineFixture> = Vec::new();
    let mut i: usize = 0;
    assert(models.take(0) =~= Seq::<FixtureModel>::empty());
    assert(fixture_models(out@) =~= Seq::<FixtureModel>::empty());
    while i < fixtures.len()
        invariant
            i <= fixtures@.len(),
            models == fixture_models(fixtures@),
            keep == candidacy(fixture_id_override, now_ms as int),
            before == fixture_order(now_ms as int),
            fixture_models(out@) == in_order(those(models.take(i as int), keep), before),
        decreases fixtures@.len() - i,
    {
        let fixture = &fixtures[i];
        proof {
            assert(models.take(i + 1).drop_last() =~= models.take(i as int));
            assert(models.take(i + 1).last() == fixture@);
        }
        let over = match fixture.game_state {
            Some(state) => state == FINISHED,
            None => false,
        };
        let wanted = match fixture_id_override {
            Some(id) => fixture.fixture_id == id,
            None => true,
        };
        if !over && wanted && fixture.start_time_ms.saturating_add(FIXTURE_WINDOW_MS) >= now_ms {
            assert(keep(fixture@));
            let ghost earlier = those(models.take(i as int), keep);
            let ghost old_out = out@;
            let mut at: usize = out.len();
            while at > 0 && comes_first(fixture, &out[at - 1], now_ms)
                invariant
                    at <= out@.len(),
                    before == fixture_order(now_ms as int),
                    forall|j: int| at <= j < out@.len() ==> before(fixture@, (#[trigger] out@[j])@),
                decreases at,
            {
                at = at - 1;
            }
            out.insert(at, fixture.clone());
            proof {
                let sorted = fixture_models(old_out);
                assert forall|j: int| at <= j < sorted.len() implies before(
                    fixture@,
                    #[trigger] sorted[j],
                ) by {
                    assert(sorted[j] == old_out[j]@);
                }
                lemma_placed(sorted, fixture@, before, at as int);
                assert(earlier.push(fixture@).drop_last() =~= earlier);
                assert(fixture_models(out@) =~= sorted.insert(at as int, fixture@));
            }
        }
        i = i + 1;
    }
    assert(models.take(i as int) =~= models);
    out
}

/// Whether a market is about a fixture: its description names both participants,
/// and its start time, where it has one, is near the fixture's.
pub open spec fn about_same_event(
    market: PascalMarketModel,
    home: Seq<char>,
    away: Seq<char>,
    start_time_ms: int,
) -> bool {
    let description = normalized(market.event_description);
    &&& occurs_in(home, description)
    &&& occurs_in(away, description)
    &&& market.expected_event_start_time_ms matches Some(start) ==> apart(
        start as int,
        start_time_ms,
    ) <= START_TOLERANCE_MS
}

/// Whether a market is about a fixture. The names are given in letters and
/// digits.
pub fn market_matches_fixture(
    market: &PascalMarket,
    home: &str,
    away: &str,
    fixture_start_time_ms: u64,
) -> (r: bool)
    ensures
        r == about_same_event(market@, home@, away@, fixture_start_time_ms as int),
{
    let description = normalize(market.event_description.as_str());
    let near = match market.expected_event_start_time_ms {
        Some(start) => distance(start, fixture_start_time_ms) <= START_TOLERANCE_MS,
        None => true,
    };
    has(&description, home) && has(&description, away) && near
}

/// How far the start time of a market is from the fixture's, the largest number
/// where it has none.
pub open spec fn start_gap(market: PascalMarketModel, start_time_ms: int) -> int {
    match market.expected_event_start_time_ms {
        Some(start) => apart(start as int, start_time_ms),
        None => u64::MAX as int,
    }
}

/// The order of markets: the nearer start, and then the symbol.
pub open spec fn market_order(start_time_ms: int) -> spec_fn(
    PascalMarketModel,
    PascalMarketModel,
) -> bool {
    |a: PascalMarketModel, b: PascalMarketModel|
        start_gap(a, start_time_ms) < start_gap(b, start_time_ms) || (start_gap(a, start_time_ms)
            == start_gap(b, start_time_ms) && text_less(a.symbol, b.symbol))
}

/// The markets to try for a fixture.
pub open spec fn market_choice(
    fixture: FixtureModel,
    symbol: Option<Seq<char>>,
) -> spec_fn(PascalMarketModel) -> bool {
    |market: PascalMarketModel|
        match symbol {
            Some(wanted) => market.symbol == wanted,
            None => about_same_event(
                market,
                normalized(home_of(fixture)),
                normalized(away_of(fixture)),
                fixture.start_time_ms,
            ),
        }
}

/// The markets to try for a fixture, in the order in which they are tried.
pub open spec fn matches_for(
    fixture: FixtureModel,
    markets: Seq<PascalMarketModel>,
    symbol: Option<Seq<char>>,
) -> Seq<PascalMarketModel> {
    in_order(
        those(markets, market_choice(fixture, symbol)),
        market_order(fixture.start_time_ms),
    )
}

/// What a market is sorted by first.
fn market_gap(market: &PascalMarket, fixture_start_time_ms: u64) -> (r: u64)
    ensures
        r == start_gap(market@, fixture_start_time_ms as int),
{
    match market.expected_event_start_time_ms {
        Some(start) => distance(start, fixture_start_time_ms),
        None => u64::MAX,
    }
}

fn market_comes_first(a: &PascalMarket, b: &PascalMarket, start_time_ms: u64) -> (r: bool)
    ensures
        r == market_order(start_time_ms as int)(a@, b@),
{
    let x: u64 = market_gap(a, start_time_ms);
    let y: u64 = market_gap(b, start_time_ms);
    x < y || (x == y && text_before(a.symbol.as_str(), b.symbol.as_str()))
}

fn copy_texts(items: &Vec<String>) -> (r: Vec<String>)
    ensures
        texts(r@) == texts(items@),
{
    let mut out: Vec<String> = Vec::new();
    let mut i: usize = 0;
    while i < items.len()
        invariant
            i <= items@.len(),
            out@.len() == i,
            forall|j: int| 0 <= j < i ==> (#[trigger] out@[j])@ == items@[j]@,
        decreases items@.len() - i,
    {
        out.push(items[i].clone());
        i = i + 1;
    }
    assert(texts(out@) =~= texts(items@));
    out
}

impl Clone for PascalMarket {
    fn clone(&self) -> (r: Self)
        ensures
            r@ == self@,
    {
        PascalMarket {
            symbol: self.symbol.clone(),
            event_description: self.event_description.clone(),
            market_description: self.market_description.clone(),
            market_period: self.market_period.clone(),
            expected_event_start_time_ms: self.expected_event_start_time_ms,
            tags: copy_texts(&self.tags),
        }
    }
}

/// Picks the markets to try for a fixture, and puts them in order. A wanted
/// symbol takes the place of the names and the time.
pub fn matching_markets(
    fixture: &TxLineFixture,
    markets: &Vec<PascalMarket>,
    pascal_symbol_override: &Option<String>,
) -> (r: Vec<PascalMarket>)
    ensures
        market_models(r@) == matches_for(
            fixture@,
            market_models(markets@),
            text_option(*pascal_symbol_override),
        ),
{
    let home = from_chars(&normalize(home_participant(fixture).as_str()));
    let away = from_chars(&normalize(away_participant(fixture).as_str()));
    let start: u64 = fixture.start_time_ms;
    let ghost models = market_models(markets@);
    let ghost keep = market_choice(fixture@, text_option(*pascal_symbol_override));
    let ghost before = market_order(start as int);
    let mut out: Vec<PascalMarket> = Vec::new();
    let mut i: usize = 0;
    assert(models.take(0) =~= Seq::<PascalMarketModel>::empty());
    assert(market_models(out@) =~= Seq::<PascalMarketModel>::empty());
    while i < markets.len()
        invariant
            i <= markets@.len(),
            models == market_models(markets@),
            start == fixture.start_time_ms,
            home@ == normalized(home_of(fixture@)),
            away@ == normalized(away_of(fixture@)),
            keep == market_choice(fixture@, text_option(*pascal_symbol_override)),
            before == market_order(start as int),
            market_models(out@) == in_order(those(models.take(i as int), keep), before),
        decreases markets@.len() - i,
    {
        let market = &markets[i];
        proof {
            assert(models.take(i + 1).drop_last() =~= models.take(i as int));
            assert(models.take(i + 1).last() == market@);
        }
        let chosen = match pascal_symbol_override {
            Some(symbol) => same_text(market.symbol.as_str(), symbol.as_str()),
            None => market_matches_fixture(market, home.as_str(), away.as_str(), start),
        };
        assert(chosen == keep(market@));
        if chosen {
            let ghost earlier = those(models.take(i as int), keep);
            let ghost old_out = out@;
            let mut at: usize = out.len();
            while at > 0 && market_comes_first(market, &out[at - 1], start)
                invariant
                    at <= out@.len(),
                    before == market_order(start as int),
                    forall|j: int| at <= j < out@.len() ==> before(market@, (#[trigger] out@[j])@),
                decreases at,
            {
                at = at - 1;
            }
            out.insert(at, market.clone());
            proof {
                let sorted = market_models(old_out);
                assert forall|j: int| at <= j < sorted.len() implies before(
                    market@,
                    #[trigger] sorted[j],
                ) by {
                    assert(sorted[j] == old_out[j]@);
                }
                lemma_placed(sorted, market@, before, at as int);
                assert(earlier.push(market@).drop_last() =~= earlier);
                assert(market_models(out@) =~= sorted.insert(at as int, market@));
            }
        }
        i = i + 1;
    }
    assert(models.take(i as int) =~= models);
    out
}

/// The two orders are orders by a key, so that fixtures and markets are tried in
/// a stable order: `order_is_stable` holds of both.
pub proof fn orders_by_key(now_ms: int, start_time_ms: int)
    ensures
        orders(fixture_order(now_ms)),
        orders(market_order(start_time_ms)),
{
    let f = market_order(start_time_ms);
    assert forall|a: PascalMarketModel, b: PascalMarketModel| #[trigger] f(a, b) implies !f(
        b,
        a,
    ) by {
        lemma_text_less(a.symbol, b.symbol, a.symbol);
    }
    assert forall|a: PascalMarketModel, b: PascalMarketModel, c: PascalMarketModel| #[trigger]
        f(a, b) && !#[trigger] f(c, b) implies f(a, c) by {
        lemma_text_less(a.symbol, b.symbol, c.symbol);
    }
}

/// Why discovery cannot go on.
#[derive(Clone, Copy, Debug, PartialEq, Eq, Structural)]
pub enum DiscoveryError {
    /// The wanted fixture is not given as an unsigned integer.
    FixtureId,
    /// The API token is missing.
    MissingToken,
    /// No fixture is live or upcoming.
    NoFixture,
    /// No fixture has a market with a matching outcome.
    NoMatch,
}

impl DiscoveryError {
    /// The message shown to an operator.
    pub fn message(&self) -> (r: &'static str)
        ensures
            r@ == match *self {
                DiscoveryError::FixtureId => "TXLINE_FIXTURE_ID must be an unsigned integer"@,
                DiscoveryError::MissingToken => "TXLINE_API_TOKEN is required for live feeds"@,
                DiscoveryError::NoFixture =>
                "TxLINE did not return a live or upcoming fixture for discovery"@,
                DiscoveryError::NoMatch =>
                "no current TxLINE fixture could be matched to an active Pascal market and TxLINE outcome"@,
            },
    {
        match self {
            DiscoveryError::FixtureId => "TXLINE_FIXTURE_ID must be an unsigned integer",
            DiscoveryError::MissingToken => "TXLINE_API_TOKEN is required for live feeds",
            DiscoveryError::NoFixture =>
            "TxLINE did not return a live or upcoming fixture for discovery",
            DiscoveryError::NoMatch =>
            "no current TxLINE fixture could be matched to an active Pascal market and TxLINE outcome",
        }
    }
}

/// The environment variables that discovery reads, as far as they are set.
#[derive(Debug)]
pub struct EnvironmentValues {
    pub txline_fixture_id: Option<String>,
    pub txline_origin: Option<String>,
    pub txline_api_token: Option<String>,
    pub txline_market: Option<String>,
    pub pascal_ws_url: Option<String>,
    pub pascal_symbol: Option<String>,
}

/// A value that is set and not blank.
pub open spec fn given(value: Option<String>) -> Option<Seq<char>> {
    match value {
        Some(text) => if blank(text@) {
            None
        } else {
            Some(text@)
        },
        None => None,
    }
}

fn optional(value: &Option<String>) -> (r: Option<String>)
    ensures
        text_option(r) == given(*value),
{
    match value {
        Some(text) => if is_blank(text.as_str()) {
            None
        } else {
            Some(text.clone())
        },
        None => None,
    }
}

/// What discovery looks for, and where.
pub struct DiscoveryConfig {
    pub txline_origin: String,
    pub api_token: String,
    pub pascal_ws: String,
    pub fixture_id_override: Option<u64>,
    pub market_override: Option<String>,
    pub pascal_symbol_override: Option<String>,
}

/// The model of what discovery looks for.
#[verifier::ext_equal]
pub struct DiscoveryModel {
    pub txline_origin: Seq<char>,
    pub api_token: Seq<char>,
    pub pascal_ws: Seq<char>,
    pub fixture_id_override: Option<u64>,
    pub market_override: Option<Seq<char>>,
    pub pascal_symbol_override: Option<Seq<char>>,
}

impl View for DiscoveryConfig {
    type V = DiscoveryModel;

    open spec fn view(&self) -> DiscoveryModel {
        DiscoveryModel {
            txline_origin: self.txline_origin@,
            api_token: self.api_token@,
            pascal_ws: self.pascal_ws@,
            fixture_id_override: self.fixture_id_override,
            market_override: text_option(self.market_override),
            pascal_symbol_override: text_option(self.pascal_symbol_override),
        }
    }
}

impl Clone for DiscoveryConfig {
    fn clone(&self) -> (r: Self)
        ensures
            r@ == self@,
    {
        DiscoveryConfig {
            txline_origin: self.txline_origin.clone(),
            api_token: self.api_token.clone(),
            pascal_ws: self.pascal_ws.clone(),
            fixture_id_override: self.fixture_id_override,
            market_override: clone_text(&self.market_override),
            pascal_symbol_override: clone_text(&self.pascal_symbol_override),
        }
    }
}

/// The value that is set, whatever it is, and else a default.
pub open spec fn set_or(value: Option<String>, default: Seq<char>) -> Seq<char> {
    match value {
        Some(text) => text@,
        None => default,
    }
}

/// The first of two values that is there.
pub open spec fn first_given(first: Option<Seq<char>>, second: Option<Seq<char>>) -> Option<
    Seq<char>,
> {
    match first {
        Some(text) => Some(text),
        None => second,
    }
}

/// What the environment asks discovery to look for.
pub open spec fn discovery_settings(
    environment: EnvironmentValues,
    market: Option<Seq<char>>,
    symbol: Option<Seq<char>>,
) -> Result<DiscoveryModel, DiscoveryError> {
    let fixture = given(environment.txline_fixture_id);
    if fixture is Some && u64_written(fixture->0) is None {
        Err(DiscoveryError::FixtureId)
    } else {
        match given(environment.txline_api_token) {
            None => Err(DiscoveryError::MissingToken),
            Some(api_token) => Ok(
                DiscoveryModel {
                    txline_origin: set_or(
                        environment.txline_origin,
                        "https://txline-dev.txodds.com"@,
                    ),
                    api_token,
                    pascal_ws: set_or(environment.pascal_ws_url, "wss://data.pascal.trade/ws"@),
                    fixture_id_override: match fixture {
                        Some(text) => Some(u64_written(text)->0 as u64),
                        None => None,
                    },
                    market_override: first_given(market, given(environment.txline_market)),
                    pascal_symbol_override: first_given(symbol, given(environment.pascal_symbol)),
                },
            ),
        }
    }
}

/// A market with the outcome that belongs to it, and how to reach both.
pub struct ResolvedLiveFeed {
    pub mapping: MarketMapping,
    pub event_label: String,
    pub contract_label: String,
    pub market_period: String,
    pub expected_event_start_time_ms: Option<u64>,
    pub txline_origin: String,
    pub api_token: String,
    pub pascal_ws: String,
}

/// The model of a resolved feed.
#[verifier::ext_equal]
pub struct ResolvedModel {
    pub mapping: MappingModel,
    pub event_label: Seq<char>,
    pub contract_label: Seq<char>,
    pub market_period: Seq<char>,
    pub expected_event_start_time_ms: Option<u64>,
    pub txline_origin: Seq<char>,
    pub api_token: Seq<char>,
    pub pascal_ws: Seq<char>,
}

impl View for ResolvedLiveFeed {
    type V = ResolvedModel;

    open spec fn view(&self) -> ResolvedModel {
        ResolvedModel {
            mapping: self.mapping@,
            event_label: self.event_label@,
            contract_label: self.contract_label@,
            market_period: self.market_period@,
            expected_event_start_time_ms: self.expected_event_start_time_ms,
            txline_origin: self.txline_origin@,
            api_token: self.api_token@,
            pascal_ws: self.pascal_ws@,
        }
    }
}

impl Clone for ResolvedLiveFeed {
    fn clone(&self) -> (r: Self)
        ensures
            r@ == self@,
    {
        ResolvedLiveFeed {
            mapping: self.mapping.clone(),
            event_label: self.event_label.clone(),
            contract_label: self.contract_label.clone(),
            market_period: self.market_period.clone(),
            expected_event_start_time_ms: self.expected_event_start_time_ms,
            txline_origin: self.txline_origin.clone(),
            api_token: self.api_token.clone(),
            pascal_ws: self.pascal_ws.clone(),
        }
    }
}

/// The participants of a fixture, the home side first.
pub open spec fn event_label(fixture: FixtureModel) -> Seq<char> {
    home_of(fixture) + " vs "@ + away_of(fixture)
}

/// The feed of a fixture, a market and an outcome.
pub open spec fn resolved(
    config: DiscoveryModel,
    fixture: FixtureModel,
    market: PascalMarketModel,
    selection: SelectionModel,
) -> ResolvedModel {
    ResolvedModel {
        mapping: MappingModel {
            fixture_id: fixture.fixture_id,
            fixture_label: event_label(fixture),
            fixture_start_time_ms: fixture.start_time_ms,
            market: match config.market_override {
                Some(name) => name,
                None => market.symbol,
            },
            pascal_symbol: market.symbol,
            txline_selection: selection,
        },
        event_label: event_label(fixture),
        contract_label: market.market_description,
        market_period: market.market_period,
        expected_event_start_time_ms: market.expected_event_start_time_ms,
        txline_origin: config.txline_origin,
        api_token: config.api_token,
        pascal_ws: config.pascal_ws,
    }
}

/// The feed of the first of some markets, from position `from` on, that has an
/// outcome.
pub open spec fn feed_from(
    config: DiscoveryModel,
    fixture: FixtureModel,
    markets: Seq<PascalMarketModel>,
    lines: Seq<OddsLineModel>,
    from: int,
) -> Option<ResolvedModel>
    decreases markets.len() - from,
{
    if from < 0 || from >= markets.len() {
        None
    } else {
        match outcome_for(fixture, markets[from], lines) {
            Some(selection) => Some(resolved(config, fixture, markets[from], selection)),
            None => feed_from(config, fixture, markets, lines, from + 1),
        }
    }
}

/// The feed of a fixture, given its odds lines.
pub open spec fn fixture_feed(
    config: DiscoveryModel,
    fixture: FixtureModel,
    markets: Seq<PascalMarketModel>,
    lines: Seq<OddsLineModel>,
) -> Option<ResolvedModel> {
    feed_from(
        config,
        fixture,
        matches_for(fixture, markets, config.pascal_symbol_override),
        lines,
        0,
    )
}

/// The first fixture from position `from` on that has a market to try.
pub open spec fn next_with_markets(
    config: DiscoveryModel,
    fixtures: Seq<FixtureModel>,
    markets: Seq<PascalMarketModel>,
    from: int,
) -> Option<int>
    decreases fixtures.len() - from,
{
    if from < 0 || from >= fixtures.len() {
        None
    } else if matches_for(fixtures[from], markets, config.pascal_symbol_override).len() > 0 {
        Some(from)
    } else {
        next_with_markets(config, fixtures, markets, from + 1)
    }
}

/// The feed of the first fixture from position `from` on that has one, where
/// `odds` gives the odds lines of a fixture.
pub open spec fn first_feed(
    config: DiscoveryModel,
    fixtures: Seq<FixtureModel>,
    markets: Seq<PascalMarketModel>,
    odds: spec_fn(FixtureModel) -> Seq<OddsLineModel>,
    from: int,
) -> Option<ResolvedModel>
    decreases fixtures.len() - from,
{
    if from < 0 || from >= fixtures.len() {
        None
    } else {
        match fixture_feed(config, fixtures[from], markets, odds(fixtures[from])) {
            Some(feed) => Some(feed),
            None => first_feed(config, fixtures, markets, odds, from + 1),
        }
    }
}

/// Passing over the fixtures without a market to try loses nothing: the search
/// that asks only for the odds of the next fixture that has one finds the same
/// feed.
pub proof fn search_loses_nothing(
    config: DiscoveryModel,
    fixtures: Seq<FixtureModel>,
    markets: Seq<PascalMarketModel>,
    odds: spec_fn(FixtureModel) -> Seq<OddsLineModel>,
    from: int,
)
    requires
        0 <= from,
    ensures
        first_feed(config, fixtures, markets, odds, from) == match next_with_markets(
            config,
            fixtures,
            markets,
            from,
        ) {
            None => None,
            Some(i) => match fixture_feed(config, fixtures[i], markets, odds(fixtures[i])) {
                Some(feed) => Some(feed),
                None => first_feed(config, fixtures, markets, odds, i + 1),
            },
        },
    decreases fixtures.len() - from,
{
    if from < fixtures.len() && matches_for(
        fixtures[from],
        markets,
        config.pascal_symbol_override,
    ).len() == 0 {
        search_loses_nothing(config, fixtures, markets, odds, from + 1);
    }
}

impl DiscoveryConfig {
    /// Reads what to look for from the environment.
    pub fn from_environment(
        environment: &EnvironmentValues,
        market_override: Option<String>,
        pascal_symbol_override: Option<String>,
    ) -> (r: Result<Self, DiscoveryError>)
        ensures
            match discovery_settings(
                *environment,
                text_option(market_override),
                text_option(pascal_symbol_override),
            ) {
                Ok(settings) => r is Ok && r->Ok_0@ == settings,
                Err(error) => r is Err && r->Err_0 == error,
            },
    {
        let fixture_id_override: Option<u64> = match optional(&environment.txline_fixture_id) {
            Some(text) => match parse_u64(&to_chars(text.as_str())) {
                Some(id) => Some(id),
                None => return Err(DiscoveryError::FixtureId),
            },
            None => None,
        };
        let api_token = match optional(&environment.txline_api_token) {
            Some(token) => token,
            None => return Err(DiscoveryError::MissingToken),
        };
        let txline_origin = match &environment.txline_origin {
            Some(origin) => origin.clone(),
            None => "https://txline-dev.txodds.com".to_owned(),
        };
        let pascal_ws = match &environment.pascal_ws_url {
            Some(url) => url.clone(),
            None => "wss://data.pascal.trade/ws".to_owned(),
        };
        let market = match market_override {
            Some(name) => Some(name),
            None => optional(&environment.txline_market),
        };
        let symbol = match pascal_symbol_override {
            Some(name) => Some(name),
            None => optional(&environment.pascal_symbol),
        };
        Ok(
            DiscoveryConfig {
                txline_origin,
                api_token,
                pascal_ws,
                fixture_id_override,
                market_override: market,
                pascal_symbol_override: symbol,
            },
        )
    }

    /// Reads what to look for from the environment, if it holds an API token.
    pub fn optional_from_environment(
        environment: &EnvironmentValues,
        market_override: Option<String>,
        pascal_symbol_override: Option<String>,
    ) -> (r: Result<Option<Self>, DiscoveryError>)
        ensures
            match discovery_settings(
                *environment,
                text_option(market_override),
                text_option(pascal_symbol_override),
            ) {
                Ok(settings) => r is Ok && r->Ok_0 is Some && r->Ok_0->0@ == settings,
                Err(error) => if given(environment.txline_api_token) is None {
                    r is Ok && r->Ok_0 is None
                } else {
                    r is Err && r->Err_0 == error
                },
            },
    {
        if optional(&environment.txline_api_token).is_none() {
            return Ok(None);
        }
        match DiscoveryConfig::from_environment(
            environment,
            market_override,
            pascal_symbol_override,
        ) {
            Ok(config) => Ok(Some(config)),
            Err(error) => Err(error),
        }
    }

    /// Begins the search: the fixtures to try, in order.
    pub fn resolve_fixtures(&self, fixtures: Vec<TxLineFixture>, now_ms: u64) -> (r: Result<
        Vec<TxLineFixture>,
        DiscoveryError,
    >)
        ensures
            ({
                let found = candidates(
                    fixture_models(fixtures@),
                    self@.fixture_id_override,
                    now_ms as int,
                );
                if found.len() == 0 {
                    r is Err && r->Err_0 == DiscoveryError::NoFixture
                } else {
                    r is Ok && fixture_models(r->Ok_0@) == found
                }
            }),
    {
        let found = fixture_candidates(fixtures, self.fixture_id_override, now_ms);
        assert(fixture_models(found@).len() == found@.len());
        if found.len() == 0 {
            Err(DiscoveryError::NoFixture)
        } else {
            Ok(found)
        }
    }

    /// The next fixture whose odds are to be asked for, from position `from` on.
    pub fn resolve_next(
        &self,
        fixtures: &Vec<TxLineFixture>,
        markets: &Vec<PascalMarket>,
        from: usize,
    ) -> (r: Option<usize>)
        ensures
            match r {
                Some(i) => i < fixtures@.len() && next_with_markets(
                    self@,
                    fixture_models(fixtures@),
                    market_models(markets@),
                    from as int,
                ) == Some(i as int),
                None => next_with_markets(
                    self@,
                    fixture_models(fixtures@),
                    market_models(markets@),
                    from as int,
                ) is None,
            },
    {
        let ghost all = fixture_models(fixtures@);
        let mut i: usize = from;
        while i < fixtures.len()
            invariant
                from <= i,
                all == fixture_models(fixtures@),
                next_with_markets(self@, all, market_models(markets@), from as int)
                    == next_with_markets(self@, all, market_models(markets@), i as int),
            decreases fixtures@.len() - i,
        {
            assert(all[i as int] == fixtures@[i as int]@);
            let found = matching_markets(&fixtures[i], markets, &self.pascal_symbol_override);
            assert(market_models(found@).len() == found@.len());
            if found.len() > 0 {
                return Some(i);
            }
            i = i + 1;
        }
        None
    }

    /// The feed of a fixture, given its odds lines.
    pub fn resolve_odds(
        &self,
        fixture: &TxLineFixture,
        markets: &Vec<PascalMarket>,
        lines: &Vec<TxLineOddsLine>,
    ) -> (r: Option<ResolvedLiveFeed>)
        ensures
            match fixture_feed(
                self@,
                fixture@,
                market_models(markets@),
                odds_line_models(lines@),
            ) {
                Some(feed) => r is Some && r->0@ == feed,
                None => r is None,
            },
    {
        let found = matching_markets(fixture, markets, &self.pascal_symbol_override);
        let ghost all = market_models(found@);
        let ghost odds = odds_line_models(lines@);
        let ghost whole = fixture_feed(self@, fixture@, market_models(markets@), odds);
        let mut i: usize = 0;
        while i < found.len()
            invariant
                i <= found@.len(),
                all == market_models(found@),
                odds == odds_line_models(lines@),
                whole == fixture_feed(self@, fixture@, market_models(markets@), odds),
                whole == feed_from(self@, fixture@, all, odds, i as int),
            decreases found@.len() - i,
        {
            let market = &found[i];
            assert(all[i as int] == market@);
            if let Some(selection) = select_outcome(fixture, market, lines) {
                return Some(self.feed(fixture, market, selection));
            }
            i = i + 1;
        }
        None
    }

    fn feed(
        &self,
        fixture: &TxLineFixture,
        market: &PascalMarket,
        selection: TxLineMarketSelection,
    ) -> (r: ResolvedLiveFeed)
        ensures
            r@ == resolved(self@, fixture@, market@, selection@),
    {
        let mut label = home_participant(fixture);
        label.append(" vs ");
        label.append(away_participant(fixture).as_str());
        ResolvedLiveFeed {
            event_label: label.clone(),
            contract_label: market.market_description.clone(),
            market_period: market.market_period.clone(),
            expected_event_start_time_ms: market.expected_event_start_time_ms,
            mapping: MarketMapping {
                fixture_id: fixture.fixture_id,
                fixture_label: label,
                fixture_start_time_ms: fixture.start_time_ms,
                market: match &self.market_override {
                    Some(name) => name.clone(),
                    None => market.symbol.clone(),
                },
                pascal_symbol: market.symbol.clone(),
                txline_selection: selection,
            },
            txline_origin: self.txline_origin.clone(),
            api_token: self.api_token.clone(),
            pascal_ws: self.pascal_ws.clone(),
        }
    }
}

/// Only candidates are tried, and only markets that are about the fixture, or
/// that have the wanted symbol.
pub proof fn only_fitting_pairs_are_tried(
    fixtures: Seq<FixtureModel>,
    wanted: Option<u64>,
    now_ms: int,
    fixture: FixtureModel,
    markets: Seq<PascalMarketModel>,
    symbol: Option<Seq<char>>,
)
    ensures
        forall|i: int|
            0 <= i < candidates(fixtures, wanted, now_ms).len() ==> is_candidate(
                #[trigger] candidates(fixtures, wanted, now_ms)[i],
                wanted,
                now_ms,
            ),
        forall|i: int|
            0 <= i < matches_for(fixture, markets, symbol).len() ==> {
                let market = #[trigger] matches_for(fixture, markets, symbol)[i];
                match symbol {
                    Some(name) => market.symbol == name,
                    None => about_same_event(
                        market,
                        normalized(home_of(fixture)),
                        normalized(away_of(fixture)),
                        fixture.start_time_ms,
                    ),
                }
            },
{
    ordering_keeps_the_property(fixtures, candidacy(wanted, now_ms), fixture_order(now_ms));
    ordering_keeps_the_property(
        markets,
        market_choice(fixture, symbol),
        market_order(fixture.start_time_ms),
    );
    let keep = market_choice(fixture, symbol);
    let found = matches_for(fixture, markets, symbol);
    assert forall|i: int| 0 <= i < found.len() implies {
        let market = #[trigger] found[i];
        match symbol {
            Some(name) => market.symbol == name,
            None => about_same_event(
                market,
                normalized(home_of(fixture)),
                normalized(away_of(fixture)),
                fixture.start_time_ms,
            ),
        }
    } by {
        assert(keep(found[i]));
    }
    let pick = candidacy(wanted, now_ms);
    let tried = candidates(fixtures, wanted, now_ms);
    assert forall|i: int| 0 <= i < tried.len() implies is_candidate(
        #[trigger] tried[i],
        wanted,
        now_ms,
    ) by {
        assert(pick(tried[i]));
    }
}

/// An outcome that is found is a price of a line with the market's period and
/// numeric line.
pub proof fn discovered_outcomes_fit(
    fixture: FixtureModel,
    market: PascalMarketModel,
    lines: Seq<OddsLineModel>,
)
    requires
        outcome_for(fixture, market, lines) is Some,
    ensures
        exists|i: int|
            #![trigger lines[i]]
            0 <= i < lines.len() && line_fits(market, lines[i]) && ({
                let s = outcome_for(fixture, market, lines)->0;
                &&& s.super_odds_type == lines[i].super_odds_type
                &&& s.market_parameters == lines[i].market_parameters
                &&& s.market_period == lines[i].market_period
                &&& 0 <= s.price_index < lines[i].price_names.len()
                &&& s.price_name == lines[i].price_names[s.price_index]
            }),
{
    let all = offers(fixture, market, lines);
    lemma_best_is_offered(all);
    let k = choose|k: int| 0 <= k < all.len() && all[k] == best_offer(all)->0;
    lemma_offer_origin(fixture, market, lines, k);
}

proof fn lemma_best_is_offered(all: Seq<OfferModel>)
    ensures
        best_offer(all) is Some ==> exists|k: int|
            0 <= k < all.len() && all[k] == best_offer(all)->0,
    decreases all.len(),
{
    if all.len() > 0 {
        let rest = all.drop_last();
        lemma_best_is_offered(rest);
        if best_offer(all) is Some {
            if best_offer(all) == best_offer(rest) {
                let k = choose|k: int| 0 <= k < rest.len() && rest[k] == best_offer(rest)->0;
                assert(all[k] == rest[k]);
            } else {
                assert(all[all.len() - 1] == all.last());
            }
        }
    }
}

proof fn lemma_offer_origin(
    fixture: FixtureModel,
    market: PascalMarketModel,
    lines: Seq<OddsLineModel>,
    k: int,
)
    requires
        0 <= k < offers(fixture, market, lines).len(),
    ensures
        exists|i: int|
            #![trigger lines[i]]
            0 <= i < lines.len() && line_fits(market, lines[i]) && ({
                let s = offers(fixture, market, lines)[k].selection;
                &&& s.super_odds_type == lines[i].super_odds_type
                &&& s.market_parameters == lines[i].market_parameters
                &&& s.market_period == lines[i].market_period
                &&& 0 <= s.price_index < lines[i].price_names.len()
                &&& s.price_name == lines[i].price_names[s.price_index]
            }),
    decreases lines.len(),
{
    let rest = lines.drop_last();
    let earlier = offers(fixture, market, rest);
    if k < earlier.len() {
        lemma_offer_origin(fixture, market, rest, k);
        let i = choose|i: int|
            #![trigger rest[i]]
            0 <= i < rest.len() && line_fits(market, rest[i]) && ({
                let s = earlier[k].selection;
                &&& s.super_odds_type == rest[i].super_odds_type
                &&& s.market_parameters == rest[i].market_parameters
                &&& s.market_period == rest[i].market_period
                &&& 0 <= s.price_index < rest[i].price_names.len()
                &&& s.price_name == rest[i].price_names[s.price_index]
            });
        assert(rest[i] == lines[i]);
        assert(offers(fixture, market, lines)[k] == earlier[k]);
    } else {
        let i = lines.len() - 1;
        assert(lines[i] == lines.last());
        assert(line_fits(market, lines[i]));
    }
}

} // verus!
