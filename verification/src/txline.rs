//! TxLINE: fixtures, odds lines and fair values.
//!
//! The service hands over what it received: the bytes of the event stream and
//! the text of the snapshots. Here it is framed, read and turned into events.

use vstd::prelude::*;
use vstd::string::StringExecFns;
use vstd::utf8::{decode_utf8, valid_utf8};

use crate::fixed::{price_option, price_written, Price, SCALE};
use crate::journal::{blank, is_blank, SelectionModel, TxLineMarketSelection};
use crate::json::{
    extract_i64, extract_string, extract_u64, find_key, found, items_of, json_models, json_read,
    key_models, parse_json, scalar_text, signed_at, text_at, text_of, unsigned_at, JsonModel,
    JsonValue,
};
use crate::text::{
    all_digits, decimal, digits_capped, digits_value, from_chars, matches_at, only_digits,
    push_decimal, same_text, slice_of, split_at_first, split_first, stands_at, text_option,
    to_chars, trim, trimmed,
};
use crate::types::{EventEnvelope, EventModel, MarketEvent};

verus! {

/// Where TxLINE is, and what to take from it.
#[derive(Debug)]
pub struct TxLineConfig {
    pub origin: String,
    pub api_token: String,
    pub market: String,
    pub fixture_id: u64,
    pub selection: TxLineMarketSelection,
}

impl Clone for TxLineConfig {
    fn clone(&self) -> (r: Self)
        ensures
            r.origin@ == self.origin@,
            r.api_token@ == self.api_token@,
            r.market@ == self.market@,
            r.fixture_id == self.fixture_id,
            r.selection@ == self.selection@,
    {
        TxLineConfig {
            origin: self.origin.clone(),
            api_token: self.api_token.clone(),
            market: self.market.clone(),
            fixture_id: self.fixture_id,
            selection: self.selection.clone(),
        }
    }
}

/// A fixture.
#[derive(Debug)]
pub struct TxLineFixture {
    pub fixture_id: u64,
    pub participant_1: String,
    pub participant_2: String,
    pub participant_1_is_home: bool,
    pub start_time_ms: u64,
    pub game_state: Option<u64>,
}

/// The model of a fixture.
#[verifier::ext_equal]
pub struct FixtureModel {
    pub fixture_id: int,
    pub participant_1: Seq<char>,
    pub participant_2: Seq<char>,
    pub participant_1_is_home: bool,
    pub start_time_ms: int,
    pub game_state: Option<u64>,
}

impl View for TxLineFixture {
    type V = FixtureModel;

    open spec fn view(&self) -> FixtureModel {
        FixtureModel {
            fixture_id: self.fixture_id as int,
            participant_1: self.participant_1@,
            participant_2: self.participant_2@,
            participant_1_is_home: self.participant_1_is_home,
            start_time_ms: self.start_time_ms as int,
            game_state: self.game_state,
        }
    }
}

impl Clone for TxLineFixture {
    fn clone(&self) -> (r: Self)
        ensures
            r@ == self@,
    {
        TxLineFixture {
            fixture_id: self.fixture_id,
            participant_1: self.participant_1.clone(),
            participant_2: self.participant_2.clone(),
            participant_1_is_home: self.participant_1_is_home,
            start_time_ms: self.start_time_ms,
            game_state: self.game_state,
        }
    }
}

/// The prices of one market of a fixture.
#[derive(Debug)]
pub struct TxLineOddsLine {
    pub super_odds_type: String,
    pub market_parameters: String,
    pub market_period: String,
    pub price_names: Vec<String>,
}

/// The model of an odds line.
#[verifier::ext_equal]
pub struct OddsLineModel {
    pub super_odds_type: Seq<char>,
    pub market_parameters: Seq<char>,
    pub market_period: Seq<char>,
    pub price_names: Seq<Seq<char>>,
}

/// The characters of some strings.
pub open spec fn texts(strings: Seq<String>) -> Seq<Seq<char>> {
    Seq::new(strings.len(), |i: int| strings[i]@)
}

impl View for TxLineOddsLine {
    type V = OddsLineModel;

    open spec fn view(&self) -> OddsLineModel {
        OddsLineModel {
            super_odds_type: self.super_odds_type@,
            market_parameters: self.market_parameters@,
            market_period: self.market_period@,
            price_names: texts(self.price_names@),
        }
    }
}

/// Whether the bytes `pattern` stand in `bytes` at position `at`.
pub open spec fn bytes_at(bytes: Seq<u8>, pattern: Seq<u8>, at: int) -> bool {
    0 <= at && at + pattern.len() <= bytes.len() && bytes.subrange(at, at + pattern.len())
        == pattern
}

/// The first position from `from` on at which `pattern` stands.
pub open spec fn first_at(bytes: Seq<u8>, pattern: Seq<u8>, from: int) -> Option<int>
    decreases bytes.len() - from,
{
    if from < 0 || from + pattern.len() > bytes.len() {
        None
    } else if bytes_at(bytes, pattern, from) {
        Some(from)
    } else if from >= bytes.len() {
        None
    } else {
        first_at(bytes, pattern, from + 1)
    }
}

/// An empty line after a line feed.
pub open spec fn lf_lf() -> Seq<u8> {
    seq![10u8, 10u8]
}

/// An empty line after a carriage return and a line feed.
pub open spec fn crlf_crlf() -> Seq<u8> {
    seq![13u8, 10u8, 13u8, 10u8]
}

/// Where the first block of an event stream ends, and how long the empty line
/// after it is.
pub open spec fn separator(bytes: Seq<u8>) -> Option<(int, int)> {
    match (first_at(bytes, lf_lf(), 0), first_at(bytes, crlf_crlf(), 0)) {
        (Some(lf), Some(crlf)) => if crlf < lf {
            Some((crlf, 4))
        } else {
            Some((lf, 2))
        },
        (Some(lf), None) => Some((lf, 2)),
        (None, Some(crlf)) => Some((crlf, 4)),
        (None, None) => None,
    }
}

fn position_of(bytes: &[u8], pattern: &[u8]) -> (r: Option<usize>)
    requires
        pattern@.len() > 0,
    ensures
        match r {
            Some(at) => first_at(bytes@, pattern@, 0) == Some(at as int),
            None => first_at(bytes@, pattern@, 0) is None,
        },
{
    let mut at: usize = 0;
    while at < bytes.len() && pattern.len() <= bytes.len() - at
        invariant
            pattern@.len() > 0,
            at <= bytes@.len(),
            first_at(bytes@, pattern@, 0) == first_at(bytes@, pattern@, at as int),
        decreases bytes@.len() - at,
    {
        let size: usize = bytes.len();
        let mut i: usize = 0;
        while i < pattern.len() && bytes[at + i] == pattern[i]
            invariant
                at + pattern@.len() <= bytes@.len() == size,
                i <= pattern@.len(),
                forall|j: int| 0 <= j < i ==> bytes@[at + j] == pattern@[j],
            decreases pattern@.len() - i,
        {
            i = i + 1;
        }
        if i == pattern.len() {
            assert(bytes@.subrange(at as int, at + pattern@.len()) =~= pattern@);
            return Some(at);
        }
        assert(bytes@.subrange(at as int, at + pattern@.len())[i as int] == bytes@[at + i]);
        at = at + 1;
    }
    None
}

/// Finds where the first block of an event stream ends, and how long the empty
/// line after it is.
pub fn find_sse_separator(buffer: &[u8]) -> (r: Option<(usize, usize)>)
    ensures
        match r {
            Some((at, len)) => separator(buffer@) == Some((at as int, len as int)),
            None => separator(buffer@) is None,
        },
{
    let lf_pattern: [u8; 2] = [10, 10];
    let crlf_pattern: [u8; 4] = [13, 10, 13, 10];
    assert(lf_pattern@ =~= lf_lf());
    assert(crlf_pattern@ =~= crlf_crlf());
    let lf = position_of(buffer, &lf_pattern);
    let crlf = position_of(buffer, &crlf_pattern);
    match (lf, crlf) {
        (Some(left), Some(right)) => if right < left {
            Some((right, 4))
        } else {
            Some((left, 2))
        },
        (Some(left), None) => Some((left, 2)),
        (None, Some(right)) => Some((right, 4)),
        (None, None) => None,
    }
}

proof fn lemma_first_at(bytes: Seq<u8>, pattern: Seq<u8>, from: int)
    requires
        0 <= from,
        pattern.len() > 0,
    ensures
        match first_at(bytes, pattern, from) {
            Some(at) => from <= at && bytes_at(bytes, pattern, at) && forall|j: int|
                from <= j < at ==> !bytes_at(bytes, pattern, j),
            None => forall|j: int| from <= j ==> !bytes_at(bytes, pattern, j),
        },
    decreases bytes.len() - from,
{
    if from + pattern.len() <= bytes.len() && !bytes_at(bytes, pattern, from) {
        lemma_first_at(bytes, pattern, from + 1);
    }
}

pub proof fn lemma_separator(bytes: Seq<u8>)
    ensures
        match separator(bytes) {
            Some((at, len)) => {
                &&& 0 <= at && at + len <= bytes.len()
                &&& len == 2 && bytes_at(bytes, lf_lf(), at) || len == 4 && bytes_at(
                    bytes,
                    crlf_crlf(),
                    at,
                )
                &&& forall|j: int| 0 <= j < at ==> !bytes_at(bytes, lf_lf(), j)
                &&& forall|j: int| 0 <= j < at ==> !bytes_at(bytes, crlf_crlf(), j)
            },
            None => {
                &&& forall|j: int| !bytes_at(bytes, lf_lf(), j)
                &&& forall|j: int| !bytes_at(bytes, crlf_crlf(), j)
            },
        },
{
    lemma_first_at(bytes, lf_lf(), 0);
    lemma_first_at(bytes, crlf_crlf(), 0);
}

/// A separator that is there stays where it is when more bytes arrive.
pub proof fn separators_are_stable(bytes: Seq<u8>, more: Seq<u8>)
    requires
        separator(bytes) is Some,
    ensures
        separator(bytes + more) == separator(bytes),
{
    let all = bytes + more;
    let (at, len) = separator(bytes)->0;
    lemma_separator(bytes);
    lemma_separator(all);
    let pattern = if len == 2 {
        lf_lf()
    } else {
        crlf_crlf()
    };
    assert(bytes_at(all, pattern, at)) by {
        assert(all.subrange(at, at + len) =~= bytes.subrange(at, at + len));
    }
    assert forall|j: int| 0 <= j < at implies !bytes_at(all, lf_lf(), j) by {
        if bytes_at(all, lf_lf(), j) {
            assert(bytes.subrange(j, j + 2) =~= all.subrange(j, j + 2));
            assert(bytes_at(bytes, lf_lf(), j));
        }
    }
    assert forall|j: int| 0 <= j < at implies !bytes_at(all, crlf_crlf(), j) by {
        if bytes_at(all, crlf_crlf(), j) {
            let found = all.subrange(j, j + 4);
            assert(found[0] == all[j] && found[1] == all[j + 1] && found[2] == all[j + 2]
                && found[3] == all[j + 3]);
            if j + 4 <= bytes.len() {
                assert(bytes.subrange(j, j + 4) =~= found);
                assert(bytes_at(bytes, crlf_crlf(), j));
            } else {
                let here = bytes.subrange(at, at + len);
                assert(here[0] == all[at] && here[1] == all[at + 1]);
                if len == 4 {
                    assert(here[2] == all[at + 2] && here[3] == all[at + 3]);
                }
            }
        }
    }
    // A separator of the other kind does not begin at the same place either.
    if len == 2 {
        assert(!bytes_at(all, crlf_crlf(), at)) by {
            if bytes_at(all, crlf_crlf(), at) {
                let here = bytes.subrange(at, at + 2);
                assert(here[0] == all[at]);
                assert(all.subrange(at, at + 4)[0] == all[at]);
            }
        }
    } else {
        assert(!bytes_at(all, lf_lf(), at)) by {
            if bytes_at(all, lf_lf(), at) {
                let here = bytes.subrange(at, at + 4);
                assert(here[0] == all[at]);
                assert(all.subrange(at, at + 2)[0] == all[at]);
            }
        }
    }
    assert(first_at(all, pattern, 0) == Some(at)) by {
        lemma_first_at(all, pattern, 0);
    }
    lemma_first_at(all, lf_lf(), 0);
    lemma_first_at(all, crlf_crlf(), 0);
}

/// The blocks of an event stream.
pub open spec fn blocks(bytes: Seq<u8>) -> Seq<Seq<u8>>
    decreases bytes.len(),
{
    match separator(bytes) {
        Some((at, len)) => if 0 <= at && 0 < len && at + len <= bytes.len() {
            seq![bytes.take(at)] + blocks(bytes.skip(at + len))
        } else {
            Seq::empty()
        },
        None => Seq::empty(),
    }
}

/// What is left of an event stream behind its last block.
pub open spec fn unfinished(bytes: Seq<u8>) -> Seq<u8>
    decreases bytes.len(),
{
    match separator(bytes) {
        Some((at, len)) => if 0 <= at && 0 < len && at + len <= bytes.len() {
            unfinished(bytes.skip(at + len))
        } else {
            bytes
        },
        None => bytes,
    }
}

/// How an event stream is cut into chunks does not matter: the blocks of two
/// chunks are those of the first, and then those of what it left unfinished with
/// the second behind it.
pub proof fn chunks_do_not_matter(first: Seq<u8>, second: Seq<u8>)
    ensures
        blocks(first + second) == blocks(first) + blocks(unfinished(first) + second),
    decreases first.len(),
{
    lemma_separator(first);
    match separator(first) {
        Some((at, len)) => {
            separators_are_stable(first, second);
            let rest = first.skip(at + len);
            assert((first + second).take(at) =~= first.take(at));
            assert((first + second).skip(at + len) =~= rest + second);
            chunks_do_not_matter(rest, second);
            assert(blocks(first + second) =~= blocks(first) + blocks(unfinished(first) + second));
        },
        None => {
            assert(blocks(first) + blocks(first + second) =~= blocks(first + second));
        },
    }
}

/// The bytes of an event stream that are not framed yet.
pub struct SseBuffer {
    bytes: Vec<u8>,
}

impl View for SseBuffer {
    type V = Seq<u8>;

    closed spec fn view(&self) -> Seq<u8> {
        self.bytes@
    }
}

impl SseBuffer {
    /// An empty buffer.
    pub fn new() -> (r: Self)
        ensures
            r@.len() == 0,
    {
        SseBuffer { bytes: Vec::new() }
    }

    /// Appends a chunk.
    pub fn extend(&mut self, chunk: &[u8])
        ensures
            final(self)@ == old(self)@ + chunk@,
    {
        let mut i: usize = 0;
        assert(old(self)@ + chunk@.take(0) =~= old(self)@);
        while i < chunk.len()
            invariant
                i <= chunk@.len(),
                self@ == old(self)@ + chunk@.take(i as int),
            decreases chunk@.len() - i,
        {
            self.bytes.push(chunk[i]);
            i = i + 1;
            assert(old(self)@ + chunk@.take(i as int) =~= (old(self)@ + chunk@.take(i - 1)).push(
                chunk@[i - 1],
            ));
        }
        assert(chunk@.take(i as int) =~= chunk@);
    }

    /// Takes the first block out of the buffer, with the empty line after it.
    pub fn next_block(&mut self) -> (r: Option<Vec<u8>>)
        ensures
            match separator(old(self)@) {
                Some((at, len)) => {
                    &&& r is Some && r->0@ == old(self)@.take(at)
                    &&& final(self)@ == old(self)@.skip(at + len)
                },
                None => r is None && final(self)@ == old(self)@,
            },
    {
        proof {
            lemma_separator(self@);
        }
        let size: usize = self.bytes.len();
        match find_sse_separator(&self.bytes) {
            Some((at, len)) => {
                let block = copy_bytes(&self.bytes, 0, at);
                let rest = copy_bytes(&self.bytes, at + len, size);
                assert(block@ =~= self@.take(at as int));
                assert(rest@ =~= self@.skip(at + len));
                self.bytes = rest;
                Some(block)
            },
            None => None,
        }
    }
}

fn copy_bytes(bytes: &Vec<u8>, from: usize, to: usize) -> (r: Vec<u8>)
    requires
        from <= to <= bytes@.len(),
    ensures
        r@ == bytes@.subrange(from as int, to as int),
{
    let mut out: Vec<u8> = Vec::new();
    let mut i: usize = from;
    while i < to
        invariant
            from <= i <= to <= bytes@.len(),
            out@ == bytes@.subrange(from as int, i as int),
        decreases to - i,
    {
        out.push(bytes[i]);
        i = i + 1;
        assert(bytes@.subrange(from as int, i as int) =~= bytes@.subrange(
            from as int,
            i - 1,
        ).push(bytes@[i - 1]));
    }
    out
}

/// Calls `std::str::from_utf8`, which succeeds exactly on well-formed UTF-8 and
/// gives the text that it encodes.
#[verifier::external_body]
fn utf8_text(bytes: &[u8]) -> (r: Option<String>)
    ensures
        r is Some == valid_utf8(bytes@),
        r matches Some(text) ==> text@ == decode_utf8(bytes@),
{
    std::str::from_utf8(bytes).ok().map(str::to_owned)
}

/// The word that a line of data begins with.
pub open spec fn data_prefix() -> Seq<char> {
    seq!['d', 'a', 't', 'a', ':']
}

/// The lines of a text, without the line feeds between them.
pub open spec fn lines_of(text: Seq<char>) -> Seq<Seq<char>>
    decreases text.len(),
{
    match split_first(text, '\n') {
        Some((head, tail)) => if tail.len() < text.len() {
            seq![head] + lines_of(tail)
        } else {
            Seq::empty()
        },
        None => seq![text],
    }
}

/// The data of some lines: what follows the word on the lines that begin with
/// it, trimmed, with a line feed between two of them.
pub open spec fn joined_data(lines: Seq<Seq<char>>) -> Option<Seq<char>>
    decreases lines.len(),
{
    if lines.len() == 0 {
        None
    } else {
        let rest = joined_data(lines.drop_last());
        let line = lines.last();
        if stands_at(line, data_prefix(), 0) {
            let value = trimmed(line.skip(5));
            match rest {
                Some(text) => Some(text + seq!['\n'] + value),
                None => Some(value),
            }
        } else {
            rest
        }
    }
}

/// The data of a block, empty where it has none.
pub open spec fn block_data(text: Seq<char>) -> Seq<char> {
    match joined_data(lines_of(text)) {
        Some(data) => data,
        None => Seq::empty(),
    }
}

/// Puts the data of a block together.
pub fn sse_data(text: &str) -> (r: String)
    ensures
        r@ == block_data(text@),
{
    let chars = to_chars(text);
    let prefix: [char; 5] = ['d', 'a', 't', 'a', ':'];
    assert(prefix@ =~= data_prefix());
    let mut data: Vec<char> = Vec::new();
    let mut any = false;
    let mut rest = chars;
    let mut last = false;
    let ghost mut seen: Seq<Seq<char>> = Seq::empty();
    assert(seen + lines_of(rest@) =~= lines_of(text@));
    while !last
        invariant
            prefix@ == data_prefix(),
            !last ==> seen + lines_of(rest@) == lines_of(text@),
            last ==> seen == lines_of(text@),
            joined_data(seen) == if any {
                Some(data@)
            } else {
                None
            },
            !any ==> data@.len() == 0,
        decreases rest@.len(), if last { 0int } else { 1int },
    {
        let ghost before = rest@;
        let line = match split_at_first(&rest, '\n') {
            Some((head, tail)) => {
                rest = tail;
                head
            },
            None => {
                last = true;
                slice_of(&rest, 0, rest.len())
            },
        };
        proof {
            crate::text::lemma_length_before(before, '\n');
            if last {
                assert(line@ =~= before);
                assert(seen + seq![before] =~= seen.push(line@));
            } else {
                assert(seen + (seq![line@] + lines_of(rest@)) =~= seen.push(line@) + lines_of(
                    rest@,
                ));
            }
            assert(seen.push(line@).drop_last() =~= seen);
            seen = seen.push(line@);
        }
        let ghost shown = data@;
        if matches_at(&line, &prefix, 0) {
            let tail = slice_of(&line, 5, line.len());
            let value = trim(&tail);
            assert(tail@ =~= line@.skip(5));
            if any {
                data.push('\n');
            }
            let ghost base = data@;
            let mut i: usize = 0;
            assert(base + value@.take(0) =~= base);
            while i < value.len()
                invariant
                    i <= value@.len(),
                    data@ == base + value@.take(i as int),
                decreases value@.len() - i,
            {
                data.push(value[i]);
                i = i + 1;
                assert(base + value@.take(i as int) =~= (base + value@.take(i - 1)).push(
                    value@[i - 1],
                ));
            }
            assert(value@.take(i as int) =~= value@);
            proof {
                if any {
                    assert(base + value@ =~= shown + seq!['\n'] + value@);
                } else {
                    assert(base + value@ =~= value@);
                }
            }
            any = true;
        }
    }
    assert(data@ =~= block_data(text@));
    from_chars(&data)
}

/// `s` with zeros appended up to four digits.
pub open spec fn padded_to_four(s: Seq<char>) -> Seq<char> {
    s + Seq::new((4 - s.len()) as nat, |i: int| '0')
}

/// The probability that a percentage writes: decimal digits, and up to four more
/// behind a point, up to one hundred percent.
pub open spec fn percentage(text: Seq<char>) -> Option<int> {
    let body = trimmed(text);
    let (whole, fraction) = match split_first(body, '.') {
        Some((a, b)) => (a, b),
        None => (body, Seq::empty()),
    };
    if whole.len() == 0 || fraction.len() > 4 || !all_digits(whole) || !all_digits(fraction) {
        None
    } else {
        let micros = digits_value(whole) * 10_000 + digits_value(padded_to_four(fraction));
        if micros <= SCALE {
            Some(micros as int)
        } else {
            None
        }
    }
}

/// Reads a percentage as a probability.
pub fn percentage_to_probability(value: &str) -> (r: Option<Price>)
    ensures
        price_option(r) == percentage(value@),
{
    let chars = to_chars(value);
    let body = trim(&chars);
    let (whole, fraction) = match split_at_first(&body, '.') {
        Some(parts) => parts,
        None => (body, Vec::new()),
    };
    assert(match split_first(trimmed(value@), '.') {
        Some((a, b)) => whole@ == a && fraction@ == b,
        None => whole@ == trimmed(value@) && fraction@ =~= Seq::<char>::empty(),
    });
    if whole.len() == 0 || fraction.len() > 4 || !only_digits(&whole) || !only_digits(&fraction) {
        return None;
    }
    let mut digits = fraction;
    let ghost given = digits@;
    while digits.len() < 4
        invariant
            given.len() <= digits@.len() <= 4,
            given.len() <= 4,
            all_digits(given),
            digits@ == given + Seq::new((digits@.len() - given.len()) as nat, |i: int| '0'),
        decreases 4 - digits@.len(),
    {
        digits.push('0');
        assert(digits@ =~= given + Seq::new((digits@.len() - given.len()) as nat, |i: int| '0'));
    }
    assert(digits@ == padded_to_four(given));
    assert(all_digits(digits@));
    let units: u128 = digits_capped(&whole);
    let parts: u128 = digits_capped(&digits);
    let micros: u128 = units * 10_000 + parts;
    if micros > SCALE as u128 {
        return None;
    }
    match Price::from_micros(micros as i64) {
        Ok(price) => Some(price),
        Err(_) => None,
    }
}

/// The fields in which a probability may stand, in the order in which they are
/// looked for.
pub open spec fn price_keys() -> Seq<Seq<char>> {
    seq!["probability"@, "stablePrice"@, "StablePrice"@, "price"@, "Price"@]
}

/// The first price among some fields. A field that holds neither a text nor a
/// number ends the search.
pub open spec fn price_at(value: JsonModel, keys: Seq<Seq<char>>) -> Option<int>
    decreases keys.len(),
{
    if keys.len() == 0 {
        None
    } else {
        match found(value, keys[0]) {
            None => price_at(value, keys.drop_first()),
            Some(hit) => match scalar_text(hit) {
                None => None,
                Some(text) => match price_written(text) {
                    Ok(micros) => Some(micros),
                    Err(_) => price_at(value, keys.drop_first()),
                },
            },
        }
    }
}

/// The percentages of a payload, if it has them.
pub open spec fn percentages(value: JsonModel) -> Option<Seq<JsonModel>> {
    match found(value, "Pct"@) {
        Some(hit) => items_of(hit),
        None => None,
    }
}

/// The probability in a payload: the selected one of its percentages where it
/// has them, else the first price.
pub open spec fn probability_in(value: JsonModel, selection: Option<SelectionModel>) -> Option<
    int,
> {
    let selected = match selection {
        Some(s) => match percentages(value) {
            Some(items) => if s.price_index < items.len() {
                Some(items[s.price_index])
            } else {
                None
            },
            None => None,
        },
        None => None,
    };
    match selected {
        Some(item) => match scalar_text(item) {
            Some(text) => percentage(text),
            None => None,
        },
        None => price_at(value, price_keys()),
    }
}

/// The model of a selection that may be there.
pub open spec fn selection_option(selection: Option<&TxLineMarketSelection>) -> Option<
    SelectionModel,
> {
    match selection {
        Some(s) => Some(s@),
        None => None,
    }
}

/// Finds the first price in a payload.
fn first_price(value: &JsonValue) -> (r: Option<Price>)
    ensures
        price_option(r) == price_at(value@, price_keys()),
{
    let keys: [&str; 5] = ["probability", "stablePrice", "StablePrice", "price", "Price"];
    let ghost all = price_keys();
    let mut i: usize = 0;
    assert(all.skip(0) =~= all);
    while i < 5
        invariant
            i <= 5,
            keys@.len() == 5,
            all == price_keys(),
            all.len() == 5,
            forall|j: int| 0 <= j < 5 ==> #[trigger] all[j] == keys@[j]@,
            price_at(value@, all) == price_at(value@, all.skip(i as int)),
        decreases 5 - i,
    {
        assert(all.skip(i as int)[0] == keys@[i as int]@);
        assert(all.skip(i as int).drop_first() =~= all.skip(i + 1));
        if let Some(hit) = find_key(value, keys[i]) {
            let text = match hit.scalar() {
                Some(text) => text,
                None => return None,
            };
            if let Ok(price) = Price::from_decimal(text.as_str()) {
                return Some(price);
            }
        }
        i = i + 1;
    }
    None
}

/// Finds the probability in a payload.
pub fn extract_probability(
    value: &JsonValue,
    selection: Option<&TxLineMarketSelection>,
) -> (r: Option<Price>)
    ensures
        price_option(r) == probability_in(value@, selection_option(selection)),
{
    if let Some(s) = selection {
        if let Some(hit) = find_key(value, "Pct") {
            if let Some(items) = hit.as_array() {
                if s.price_index < items.len() {
                    assert(json_models(items@)[s.price_index as int]
                        == items@[s.price_index as int]@);
                    return match items[s.price_index].scalar() {
                        Some(text) => percentage_to_probability(text.as_str()),
                        None => None,
                    };
                }
            }
        }
    }
    first_price(value)
}

/// A text that may be missing, empty where it is.
pub open spec fn or_empty(text: Option<Seq<char>>) -> Seq<char> {
    match text {
        Some(s) => s,
        None => Seq::empty(),
    }
}

fn text_or_empty(text: Option<String>) -> (r: String)
    ensures
        r@ == or_empty(text_option(text)),
{
    match text {
        Some(s) => s,
        None => {
            let empty = String::new();
            assert(empty@ =~= Seq::<char>::empty());
            empty
        },
    }
}

/// The kind of odds in a payload.
pub open spec fn odds_type_in(value: JsonModel) -> Option<Seq<char>> {
    text_at(value, seq!["SuperOddsType"@, "superOddsType"@])
}

/// The parameters of the market in a payload, empty where there are none.
pub open spec fn parameters_in(value: JsonModel) -> Seq<char> {
    or_empty(text_at(value, seq!["MarketParameters"@, "marketParameters"@]))
}

/// The period of the market in a payload, empty where there is none.
pub open spec fn period_in(value: JsonModel) -> Seq<char> {
    or_empty(text_at(value, seq!["MarketPeriod"@, "marketPeriod"@]))
}

/// Whether a payload is about the selected market.
pub open spec fn selected(value: JsonModel, selection: SelectionModel) -> bool {
    &&& odds_type_in(value) == Some(selection.super_odds_type)
    &&& parameters_in(value) == selection.market_parameters
    &&& period_in(value) == selection.market_period
}

fn text_of_two(value: &JsonValue, first: &str, second: &str) -> (r: Option<String>)
    ensures
        text_option(r) == text_at(value@, seq![first@, second@]),
{
    let keys: [&str; 2] = [first, second];
    assert(key_models(keys@) =~= seq![first@, second@]);
    extract_string(value, &keys)
}

/// Whether a payload is about the selected market.
pub fn matches_selection(value: &JsonValue, selection: &TxLineMarketSelection) -> (r: bool)
    ensures
        r == selected(value@, selection@),
{
    let kind = match text_of_two(value, "SuperOddsType", "superOddsType") {
        Some(kind) => kind,
        None => return false,
    };
    let parameters = text_or_empty(text_of_two(value, "MarketParameters", "marketParameters"));
    let period = text_or_empty(text_of_two(value, "MarketPeriod", "marketPeriod"));
    same_text(kind.as_str(), selection.super_odds_type.as_str()) && same_text(
        parameters.as_str(),
        selection.market_parameters.as_str(),
    ) && same_text(period.as_str(), selection.market_period.as_str())
}

/// Whether a payload is about a fixture.
pub open spec fn about_fixture(value: JsonModel, fixture_id: int) -> bool {
    unsigned_at(value, seq!["fixtureId"@, "FixtureId"@, "FixtureID"@, "fixture_id"@]) == Some(
        fixture_id,
    )
}

/// Whether a payload is about a fixture.
pub fn matches_fixture(value: &JsonValue, fixture_id: u64) -> (r: bool)
    ensures
        r == about_fixture(value@, fixture_id as int),
{
    let keys: [&str; 4] = ["fixtureId", "FixtureId", "FixtureID", "fixture_id"];
    assert(key_models(keys@) =~= seq!["fixtureId"@, "FixtureId"@, "FixtureID"@, "fixture_id"@]);
    match extract_u64(value, &keys) {
        Some(id) => id == fixture_id,
        None => false,
    }
}

/// A flag in a payload.
pub open spec fn flag(value: Option<JsonModel>) -> Option<bool> {
    match value {
        Some(JsonModel::Bool(b)) => Some(b),
        _ => None,
    }
}

/// Whether the first participant plays at home, which is so unless said
/// otherwise.
pub open spec fn first_is_home(value: JsonModel) -> bool {
    let hit = match found(value, "Participant1IsHome"@) {
        Some(hit) => Some(hit),
        None => found(value, "participant1IsHome"@),
    };
    match flag(hit) {
        Some(b) => b,
        None => true,
    }
}

/// The fixture that a payload describes, if it names all of it.
pub open spec fn fixture_in(value: JsonModel) -> Option<FixtureModel> {
    let id = unsigned_at(value, seq!["FixtureId"@, "fixtureId"@]);
    let one = text_at(value, seq!["Participant1"@, "participant1"@]);
    let two = text_at(value, seq!["Participant2"@, "participant2"@]);
    let start = unsigned_at(value, seq!["StartTime"@, "startTime"@]);
    match (id, one, two, start) {
        (Some(id), Some(one), Some(two), Some(start)) => Some(
            FixtureModel {
                fixture_id: id,
                participant_1: one,
                participant_2: two,
                participant_1_is_home: first_is_home(value),
                start_time_ms: start,
                game_state: match unsigned_at(value, seq!["GameState"@, "gameState"@]) {
                    Some(n) => Some(n as u64),
                    None => None,
                },
            },
        ),
        _ => None,
    }
}

fn u64_of_two(value: &JsonValue, first: &str, second: &str) -> (r: Option<u64>)
    ensures
        match r {
            Some(n) => unsigned_at(value@, seq![first@, second@]) == Some(n as int),
            None => unsigned_at(value@, seq![first@, second@]) is None,
        },
{
    let keys: [&str; 2] = [first, second];
    assert(key_models(keys@) =~= seq![first@, second@]);
    extract_u64(value, &keys)
}

/// Reads a fixture.
pub fn parse_fixture(value: &JsonValue) -> (r: Option<TxLineFixture>)
    ensures
        match r {
            Some(fixture) => fixture_in(value@) == Some(fixture@),
            None => fixture_in(value@) is None,
        },
{
    let fixture_id: u64 = match u64_of_two(value, "FixtureId", "fixtureId") {
        Some(id) => id,
        None => return None,
    };
    let participant_1 = match text_of_two(value, "Participant1", "participant1") {
        Some(name) => name,
        None => return None,
    };
    let participant_2 = match text_of_two(value, "Participant2", "participant2") {
        Some(name) => name,
        None => return None,
    };
    let start_time_ms: u64 = match u64_of_two(value, "StartTime", "startTime") {
        Some(time) => time,
        None => return None,
    };
    let home = match find_key(value, "Participant1IsHome") {
        Some(hit) => Some(hit),
        None => find_key(value, "participant1IsHome"),
    };
    let participant_1_is_home = match home {
        Some(JsonValue::Bool(b)) => *b,
        _ => true,
    };
    Some(
        TxLineFixture {
            fixture_id,
            participant_1,
            participant_2,
            participant_1_is_home,
            start_time_ms,
            game_state: u64_of_two(value, "GameState", "gameState"),
        },
    )
}

/// The texts among some values.
pub open spec fn texts_in(items: Seq<JsonModel>) -> Seq<Seq<char>>
    decreases items.len(),
{
    if items.len() == 0 {
        Seq::empty()
    } else {
        match text_of(items.last()) {
            Some(s) => texts_in(items.drop_last()).push(s),
            None => texts_in(items.drop_last()),
        }
    }
}

/// Collects the texts among some values.
pub fn collect_texts(items: &Vec<JsonValue>) -> (r: Vec<String>)
    ensures
        texts(r@) == texts_in(json_models(items@)),
{
    let ghost models = json_models(items@);
    let mut out: Vec<String> = Vec::new();
    let mut i: usize = 0;
    assert(models.take(0) =~= Seq::<JsonModel>::empty());
    assert(texts(out@) =~= Seq::<Seq<char>>::empty());
    while i < items.len()
        invariant
            i <= items@.len(),
            models == json_models(items@),
            texts(out@) == texts_in(models.take(i as int)),
        decreases items@.len() - i,
    {
        let ghost before = out@;
        assert(models.take(i + 1).drop_last() =~= models.take(i as int));
        assert(models.take(i + 1).last() == items@[i as int]@);
        if let Some(s) = items[i].as_str() {
            out.push(s.clone());
            assert(texts(out@) =~= texts(before).push(s@));
        }
        i = i + 1;
    }
    assert(models.take(i as int) =~= models);
    out
}

/// The odds line that a payload describes, if it names its kind and prices.
pub open spec fn odds_line_in(value: JsonModel) -> Option<OddsLineModel> {
    let hit = match found(value, "PriceNames"@) {
        Some(hit) => Some(hit),
        None => found(value, "priceNames"@),
    };
    match hit {
        None => None,
        Some(list) => match (items_of(list), odds_type_in(value)) {
            (Some(items), Some(kind)) => if texts_in(items).len() == 0 {
                None
            } else {
                Some(
                    OddsLineModel {
                        super_odds_type: kind,
                        market_parameters: parameters_in(value),
                        market_period: period_in(value),
                        price_names: texts_in(items),
                    },
                )
            },
            _ => None,
        },
    }
}

/// Reads an odds line.
pub fn parse_odds_line(value: &JsonValue) -> (r: Option<TxLineOddsLine>)
    ensures
        match r {
            Some(line) => odds_line_in(value@) == Some(line@),
            None => odds_line_in(value@) is None,
        },
{
    let hit = match find_key(value, "PriceNames") {
        Some(hit) => Some(hit),
        None => find_key(value, "priceNames"),
    };
    let list = match hit {
        Some(list) => list,
        None => return None,
    };
    let items = match list.as_array() {
        Some(items) => items,
        None => return None,
    };
    let price_names = collect_texts(items);
    assert(texts(price_names@).len() == price_names@.len());
    if price_names.len() == 0 {
        return None;
    }
    let super_odds_type = match text_of_two(value, "SuperOddsType", "superOddsType") {
        Some(kind) => kind,
        None => return None,
    };
    Some(
        TxLineOddsLine {
            super_odds_type,
            market_parameters: text_or_empty(
                text_of_two(value, "MarketParameters", "marketParameters"),
            ),
            market_period: text_or_empty(text_of_two(value, "MarketPeriod", "marketPeriod")),
            price_names,
        },
    )
}

/// What a fair-value event says, without its identifier and time of receipt.
#[verifier::ext_equal]
pub struct FairValueModel {
    pub source_time_ns: Option<u64>,
    pub event: EventModel,
}

/// The message that a payload came from.
pub open spec fn message_in(value: JsonModel) -> Option<Seq<char>> {
    text_at(value, seq!["messageId"@, "MessageId"@, "message_id"@])
}

/// The time in milliseconds at which a payload was proved.
pub open spec fn proof_time_in(value: JsonModel) -> Option<int> {
    signed_at(value, seq!["ts"@, "Ts"@])
}

/// The fair value in a payload. It has a probability, a message that is not
/// blank and a time that is not negative; the time is its sequence number.
pub open spec fn fair_value_in(
    value: JsonModel,
    market: Seq<char>,
    selection: SelectionModel,
) -> Option<FairValueModel> {
    match (probability_in(value, Some(selection)), message_in(value), proof_time_in(value)) {
        (Some(probability), Some(message), Some(ts)) => if blank(message) || ts < 0 {
            None
        } else {
            Some(
                FairValueModel {
                    source_time_ns: if ts * 1_000_000 <= u64::MAX {
                        Some((ts * 1_000_000) as u64)
                    } else {
                        None
                    },
                    event: EventModel::FairValue {
                        market,
                        probability,
                        source_seq: ts,
                        message_id: Some(message),
                        proof_ts: Some(ts as i64),
                    },
                },
            )
        },
        _ => None,
    }
}

/// Whether an event is the given fair value, received at the given time.
pub open spec fn is_fair_value(
    event: EventEnvelope,
    fair: FairValueModel,
    received_time_ns: u64,
) -> bool {
    &&& event.source_time_ns == fair.source_time_ns
    &&& event.received_time_ns == received_time_ns
    &&& event.event@ == fair.event
}

/// Why something that TxLINE sent cannot be used.
#[derive(Clone, Copy, Debug, PartialEq, Eq, Structural)]
pub enum TxLineFault {
    NotUtf8,
    NotJson,
    NotAnArray,
}

/// What a block of the event stream says.
pub open spec fn block_fair_value(
    block: Seq<u8>,
    market: Seq<char>,
    fixture_id: int,
    selection: SelectionModel,
) -> Result<Option<FairValueModel>, TxLineFault> {
    if !valid_utf8(block) {
        Err(TxLineFault::NotUtf8)
    } else {
        let data = block_data(decode_utf8(block));
        if data.len() == 0 {
            Ok(None)
        } else {
            match json_read(data) {
                None => Err(TxLineFault::NotJson),
                Some(payload) => Ok(payload_fair_value(payload, market, fixture_id, selection)),
            }
        }
    }
}

/// The fair value in a payload that is about the fixture and the selected
/// market.
pub open spec fn payload_fair_value(
    payload: JsonModel,
    market: Seq<char>,
    fixture_id: int,
    selection: SelectionModel,
) -> Option<FairValueModel> {
    if about_fixture(payload, fixture_id) && selected(payload, selection) {
        fair_value_in(payload, market, selection)
    } else {
        None
    }
}

/// The first of some payloads that is about the fixture and the selected market.
pub open spec fn first_selected(
    items: Seq<JsonModel>,
    fixture_id: int,
    selection: SelectionModel,
    from: int,
) -> Option<JsonModel>
    decreases items.len() - from,
{
    if from < 0 || from >= items.len() {
        None
    } else if about_fixture(items[from], fixture_id) && selected(items[from], selection) {
        Some(items[from])
    } else {
        first_selected(items, fixture_id, selection, from + 1)
    }
}

/// What an odds snapshot says of the fixture and the selected market.
pub open spec fn snapshot_fair_value(
    text: Seq<char>,
    market: Seq<char>,
    fixture_id: int,
    selection: SelectionModel,
) -> Result<Option<FairValueModel>, TxLineFault> {
    match json_read(text) {
        None => Err(TxLineFault::NotJson),
        Some(payload) => payload_snapshot(payload, market, fixture_id, selection),
    }
}

/// What an odds snapshot that was read says of the fixture and the selected
/// market.
pub open spec fn payload_snapshot(
    payload: JsonModel,
    market: Seq<char>,
    fixture_id: int,
    selection: SelectionModel,
) -> Result<Option<FairValueModel>, TxLineFault> {
    match items_of(payload) {
        None => Err(TxLineFault::NotAnArray),
        Some(items) => match first_selected(items, fixture_id, selection, 0) {
            None => Ok(None),
            Some(line) => Ok(fair_value_in(line, market, selection)),
        },
    }
}

/// Whether a result is the given one, with its event received at the given time.
pub open spec fn is_result(
    result: Result<Option<EventEnvelope>, TxLineFault>,
    expected: Result<Option<FairValueModel>, TxLineFault>,
    received_time_ns: u64,
) -> bool {
    match (result, expected) {
        (Ok(Some(event)), Ok(Some(fair))) => is_fair_value(event, fair, received_time_ns),
        (Ok(None), Ok(None)) => true,
        (Err(a), Err(b)) => a == b,
        _ => false,
    }
}

/// Turns what TxLINE sends into fair-value events.
pub struct TxLineAdapter {
    config: TxLineConfig,
}

impl TxLineAdapter {
    /// What to take from TxLINE.
    pub closed spec fn settings(&self) -> TxLineConfig {
        self.config
    }

    /// An adapter with the given settings.
    pub fn new(config: TxLineConfig) -> (r: Self)
        ensures
            r.settings() == config,
    {
        TxLineAdapter { config }
    }

    /// Makes a fair-value event of a payload. Its identifier is random.
    pub fn fair_value_event(&self, payload: &JsonValue, received_time_ns: u64) -> (r: Option<
        EventEnvelope,
    >)
        ensures
            match fair_value_in(
                payload@,
                self.settings().market@,
                self.settings().selection@,
            ) {
                Some(fair) => r is Some && is_fair_value(r->0, fair, received_time_ns),
                None => r is None,
            },
    {
        let probability = match extract_probability(payload, Some(&self.config.selection)) {
            Some(probability) => probability,
            None => return None,
        };
        let message_keys: [&str; 3] = ["messageId", "MessageId", "message_id"];
        assert(key_models(message_keys@) =~= seq!["messageId"@, "MessageId"@, "message_id"@]);
        let message_id = match extract_string(payload, &message_keys) {
            Some(id) => id,
            None => return None,
        };
        if is_blank(message_id.as_str()) {
            return None;
        }
        let time_keys: [&str; 2] = ["ts", "Ts"];
        assert(key_models(time_keys@) =~= seq!["ts"@, "Ts"@]);
        let proof_ts: i64 = match extract_i64(payload, &time_keys) {
            Some(ts) => ts,
            None => return None,
        };
        if proof_ts < 0 {
            return None;
        }
        let source_seq: u64 = proof_ts as u64;
        let mut event = EventEnvelope::new(
            received_time_ns,
            MarketEvent::FairValue {
                market: self.config.market.clone(),
                probability,
                source_seq,
                message_id: Some(message_id),
                proof_ts: Some(proof_ts),
            },
        );
        event.source_time_ns = source_seq.checked_mul(1_000_000);
        Some(event)
    }

    /// Makes a fair-value event of a block of the event stream.
    pub fn block_event(&self, block: &[u8], received_time_ns: u64) -> (r: Result<
        Option<EventEnvelope>,
        TxLineFault,
    >)
        ensures
            is_result(
                r,
                block_fair_value(
                    block@,
                    self.settings().market@,
                    self.settings().fixture_id as int,
                    self.settings().selection@,
                ),
                received_time_ns,
            ),
    {
        let text = match utf8_text(block) {
            Some(text) => text,
            None => return Err(TxLineFault::NotUtf8),
        };
        let data = sse_data(text.as_str());
        if data.as_str().is_empty() {
            return Ok(None);
        }
        match parse_json(data.as_str()) {
            None => Err(TxLineFault::NotJson),
            Some(payload) => Ok(self.payload_event(&payload, received_time_ns)),
        }
    }

    /// Makes a fair-value event of a payload that is about the fixture and the
    /// selected market.
    pub fn payload_event(&self, payload: &JsonValue, received_time_ns: u64) -> (r: Option<
        EventEnvelope,
    >)
        ensures
            match payload_fair_value(
                payload@,
                self.settings().market@,
                self.settings().fixture_id as int,
                self.settings().selection@,
            ) {
                Some(fair) => r is Some && is_fair_value(r->0, fair, received_time_ns),
                None => r is None,
            },
    {
        if matches_fixture(payload, self.config.fixture_id) && matches_selection(
            payload,
            &self.config.selection,
        ) {
            self.fair_value_event(payload, received_time_ns)
        } else {
            None
        }
    }

    /// Makes a fair-value event of an odds snapshot.
    pub fn snapshot_event(&self, text: &str, received_time_ns: u64) -> (r: Result<
        Option<EventEnvelope>,
        TxLineFault,
    >)
        ensures
            is_result(
                r,
                snapshot_fair_value(
                    text@,
                    self.settings().market@,
                    self.settings().fixture_id as int,
                    self.settings().selection@,
                ),
                received_time_ns,
            ),
    {
        match parse_json(text) {
            Some(payload) => self.snapshot_payload_event(&payload, received_time_ns),
            None => Err(TxLineFault::NotJson),
        }
    }

    /// Makes a fair-value event of an odds snapshot that was read.
    pub fn snapshot_payload_event(&self, payload: &JsonValue, received_time_ns: u64) -> (r: Result<
        Option<EventEnvelope>,
        TxLineFault,
    >)
        ensures
            is_result(
                r,
                payload_snapshot(
                    payload@,
                    self.settings().market@,
                    self.settings().fixture_id as int,
                    self.settings().selection@,
                ),
                received_time_ns,
            ),
    {
        let items = match payload.as_array() {
            Some(items) => items,
            None => return Err(TxLineFault::NotAnArray),
        };
        let ghost models = json_models(items@);
        let ghost id = self.settings().fixture_id as int;
        let ghost selection = self.settings().selection@;
        let mut i: usize = 0;
        while i < items.len()
            invariant
                i <= items@.len(),
                models == json_models(items@),
                items_of(payload@) == Some(models),
                id == self.settings().fixture_id,
                selection == self.settings().selection@,
                first_selected(models, id, selection, 0) == first_selected(
                    models,
                    id,
                    selection,
                    i as int,
                ),
            decreases items@.len() - i,
        {
            assert(models[i as int] == items@[i as int]@);
            if matches_fixture(&items[i], self.config.fixture_id) && matches_selection(
                &items[i],
                &self.config.selection,
            ) {
                return Ok(self.fair_value_event(&items[i], received_time_ns));
            }
            i = i + 1;
        }
        Ok(None)
    }
}

/// The fixtures among some payloads.
pub open spec fn fixtures_in(items: Seq<JsonModel>) -> Seq<FixtureModel>
    decreases items.len(),
{
    if items.len() == 0 {
        Seq::empty()
    } else {
        match fixture_in(items.last()) {
            Some(fixture) => fixtures_in(items.drop_last()).push(fixture),
            None => fixtures_in(items.drop_last()),
        }
    }
}

/// The odds lines among some payloads.
pub open spec fn odds_lines_in(items: Seq<JsonModel>) -> Seq<OddsLineModel>
    decreases items.len(),
{
    if items.len() == 0 {
        Seq::empty()
    } else {
        match odds_line_in(items.last()) {
            Some(line) => odds_lines_in(items.drop_last()).push(line),
            None => odds_lines_in(items.drop_last()),
        }
    }
}

/// The models of some fixtures.
pub open spec fn fixture_models(s: Seq<TxLineFixture>) -> Seq<FixtureModel> {
    Seq::new(s.len(), |i: int| s[i]@)
}

/// The models of some odds lines.
pub open spec fn odds_line_models(s: Seq<TxLineOddsLine>) -> Seq<OddsLineModel> {
    Seq::new(s.len(), |i: int| s[i]@)
}

/// Reads the fixtures of a fixtures snapshot that was parsed. What is no fixture
/// is passed over.
pub fn collect_fixtures(payload: &JsonValue) -> (r: Result<Vec<TxLineFixture>, TxLineFault>)
    ensures
        match items_of(payload@) {
            Some(items) => r is Ok && fixture_models(r->Ok_0@) == fixtures_in(items),
            None => r == Err::<Vec<TxLineFixture>, TxLineFault>(TxLineFault::NotAnArray),
        },
{
    let items = match payload.as_array() {
        Some(items) => items,
        None => return Err(TxLineFault::NotAnArray),
    };
    let ghost models = json_models(items@);
    let mut out: Vec<TxLineFixture> = Vec::new();
    let mut i: usize = 0;
    assert(models.take(0) =~= Seq::<JsonModel>::empty());
    assert(fixture_models(out@) =~= Seq::<FixtureModel>::empty());
    while i < items.len()
        invariant
            i <= items@.len(),
            models == json_models(items@),
            fixture_models(out@) == fixtures_in(models.take(i as int)),
        decreases items@.len() - i,
    {
        let ghost before = out@;
        assert(models.take(i + 1).drop_last() =~= models.take(i as int));
        assert(models.take(i + 1).last() == items@[i as int]@);
        if let Some(fixture) = parse_fixture(&items[i]) {
            out.push(fixture);
            assert(fixture_models(out@) =~= fixture_models(before).push(fixture@));
        }
        i = i + 1;
    }
    assert(models.take(i as int) =~= models);
    Ok(out)
}

/// Reads a fixtures snapshot.
pub fn read_fixtures(text: &str) -> (r: Result<Vec<TxLineFixture>, TxLineFault>)
    ensures
        match json_read(text@) {
            None => r == Err::<Vec<TxLineFixture>, TxLineFault>(TxLineFault::NotJson),
            Some(payload) => match items_of(payload) {
                Some(items) => r is Ok && fixture_models(r->Ok_0@) == fixtures_in(items),
                None => r == Err::<Vec<TxLineFixture>, TxLineFault>(TxLineFault::NotAnArray),
            },
        },
{
    match parse_json(text) {
        Some(payload) => collect_fixtures(&payload),
        None => Err(TxLineFault::NotJson),
    }
}

/// Reads the odds lines of an odds snapshot that was parsed. What is no odds line
/// is passed over.
pub fn collect_odds_lines(payload: &JsonValue) -> (r: Result<Vec<TxLineOddsLine>, TxLineFault>)
    ensures
        match items_of(payload@) {
            Some(items) => r is Ok && odds_line_models(r->Ok_0@) == odds_lines_in(items),
            None => r == Err::<Vec<TxLineOddsLine>, TxLineFault>(TxLineFault::NotAnArray),
        },
{
    let items = match payload.as_array() {
        Some(items) => items,
        None => return Err(TxLineFault::NotAnArray),
    };
    let ghost models = json_models(items@);
    let mut out: Vec<TxLineOddsLine> = Vec::new();
    let mut i: usize = 0;
    assert(models.take(0) =~= Seq::<JsonModel>::empty());
    assert(odds_line_models(out@) =~= Seq::<OddsLineModel>::empty());
    while i < items.len()
        invariant
            i <= items@.len(),
            models == json_models(items@),
            odds_line_models(out@) == odds_lines_in(models.take(i as int)),
        decreases items@.len() - i,
    {
        let ghost before = out@;
        assert(models.take(i + 1).drop_last() =~= models.take(i as int));
        assert(models.take(i + 1).last() == items@[i as int]@);
        if let Some(line) = parse_odds_line(&items[i]) {
            out.push(line);
            assert(odds_line_models(out@) =~= odds_line_models(before).push(line@));
        }
        i = i + 1;
    }
    assert(models.take(i as int) =~= models);
    Ok(out)
}

/// Reads an odds snapshot.
pub fn read_odds_lines(text: &str) -> (r: Result<Vec<TxLineOddsLine>, TxLineFault>)
    ensures
        match json_read(text@) {
            None => r == Err::<Vec<TxLineOddsLine>, TxLineFault>(TxLineFault::NotJson),
            Some(payload) => match items_of(payload) {
                Some(items) => r is Ok && odds_line_models(r->Ok_0@) == odds_lines_in(items),
                None => r == Err::<Vec<TxLineOddsLine>, TxLineFault>(TxLineFault::NotAnArray),
            },
        },
{
    match parse_json(text) {
        Some(payload) => collect_odds_lines(&payload),
        None => Err(TxLineFault::NotJson),
    }
}

/// `text` without the slashes it ends with.
pub open spec fn without_end_slashes(text: Seq<char>) -> Seq<char>
    decreases text.len(),
{
    if text.len() > 0 && text.last() == '/' {
        without_end_slashes(text.drop_last())
    } else {
        text
    }
}

/// The address of something at an origin.
pub open spec fn address(origin: Seq<char>, path: Seq<char>) -> Seq<char> {
    without_end_slashes(origin) + path
}

/// The address of something at an origin.
pub fn address_at(origin: &str, path: &str) -> (r: String)
    ensures
        r@ == address(origin@, path@),
{
    let chars = to_chars(origin);
    let mut to: usize = chars.len();
    assert(chars@.take(to as int) =~= chars@);
    while to > 0 && chars[to - 1] == '/'
        invariant
            to <= chars@.len(),
            without_end_slashes(chars@) == without_end_slashes(chars@.take(to as int)),
        decreases to,
    {
        assert(chars@.take(to as int).drop_last() =~= chars@.take(to - 1));
        to = to - 1;
    }
    let kept = slice_of(&chars, 0, to);
    assert(kept@ =~= chars@.take(to as int));
    let mut out = from_chars(&kept);
    out.append(path);
    out
}

/// The address of the odds snapshot of a fixture.
pub fn odds_snapshot_url(origin: &str, fixture_id: u64) -> (r: String)
    ensures
        r@ == address(origin@, "/api/odds/snapshot/"@) + decimal(fixture_id as nat),
{
    let mut out = address_at(origin, "/api/odds/snapshot/");
    push_decimal(&mut out, fixture_id);
    out
}

} // verus!
