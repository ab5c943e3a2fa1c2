//! Which market and which outcome discovery puts together.

use vstd::prelude::*;

use crate::journal::{blank, SelectionModel};
use crate::laws::texts::unsigned_texts_fit;
use crate::mapping::{
    best_offer, best_offer_is_first_and_highest, candidacy, candidates, canonical,
    discovery_settings, feed_from, fit, fixture_feed, fixture_order, letter, line_fits, line_from,
    line_in, line_offers, market_choice, market_order, matches_for, names_of, next_with_markets,
    normalized, number_scan, numbers_in, offer, offers, orders_by_key, outcome_for, parameters_fit,
    pascal_period, periods_agree, separates, small, small_text, DiscoveryError, DiscoveryModel,
    EnvironmentValues, ResolvedModel,
};
use crate::order::{in_order, order_is_stable, placed, those};
use crate::pascal::PascalMarketModel;
use crate::text::{
    digit, lemma_length_before, length_before, occurs_in, text_less, trimmed, u64_written,
};
use crate::txline::{FixtureModel, OddsLineModel};

verus! {

/// Names are compared by their letters and digits alone, in small letters, one by one and
/// in their order.
pub proof fn names_are_compared_by_letters_and_digits(a: Seq<char>, b: Seq<char>, c: char)
    ensures
        normalized(a + b) == normalized(a) + normalized(b),
        normalized(seq![c]) == if ('a' <= c && c <= 'z') || ('0' <= c && c <= '9') {
            seq![c]
        } else if 'A' <= c && c <= 'Z' {
            seq![(c as u32 + 32) as char]
        } else {
            Seq::empty()
        },
{
    lemma_normalized_adds(a, b);
    assert(seq![c].drop_last() =~= Seq::<char>::empty());
    assert(normalized(seq![c].drop_last()) =~= Seq::<char>::empty());
    assert(seq![c].last() == c);
    if letter(c) || digit(c) {
        assert(normalized(seq![c]) =~= seq![small(c)]);
    }
}

proof fn lemma_normalized_adds(a: Seq<char>, b: Seq<char>)
    ensures
        normalized(a + b) == normalized(a) + normalized(b),
    decreases b.len(),
{
    if b.len() == 0 {
        assert(a + b =~= a);
        assert(normalized(a) + normalized(b) =~= normalized(a));
    } else {
        let rest = b.drop_last();
        lemma_normalized_adds(a, rest);
        assert((a + b).drop_last() =~= a + rest);
        assert((a + b).last() == b.last());
        assert(normalized(a + b) =~= normalized(a) + normalized(b));
    }
}

/// The name of the first participant of a fixture, in letters and digits.
pub open spec fn first_name(fixture: FixtureModel) -> Seq<char> {
    normalized(fixture.participant_1)
}

/// The name of the second participant of a fixture, in letters and digits.
pub open spec fn second_name(fixture: FixtureModel) -> Seq<char> {
    normalized(fixture.participant_2)
}

/// The name of the participant that plays at home, in letters and digits.
pub open spec fn home_name(fixture: FixtureModel) -> Seq<char> {
    if fixture.participant_1_is_home {
        first_name(fixture)
    } else {
        second_name(fixture)
    }
}

/// The name of the participant that plays away, in letters and digits.
pub open spec fn away_name(fixture: FixtureModel) -> Seq<char> {
    if fixture.participant_1_is_home {
        second_name(fixture)
    } else {
        first_name(fixture)
    }
}

/// Whether a label names something itself: the description holds it as it is, or it holds
/// the name of a participant.
pub open spec fn names_itself(
    label: Seq<char>,
    description: Seq<char>,
    fixture: FixtureModel,
) -> bool {
    (occurs_in(label, description) && label.len() >= 3) || occurs_in(first_name(fixture), label)
        || occurs_in(second_name(fixture), label)
}

proof fn lemma_labels_differ()
    ensures
        "home"@ != "away"@,
        "home"@ != "part1"@,
        "home"@ != "part2"@,
        "home"@ != "participant1"@,
        "home"@ != "participant2"@,
        "home"@ != "1"@,
        "home"@ != "2"@,
        "home"@ != "draw"@,
        "home"@ != "tie"@,
        "home"@ != "x"@,
        "away"@ != "part1"@,
        "away"@ != "part2"@,
        "away"@ != "participant1"@,
        "away"@ != "participant2"@,
        "away"@ != "1"@,
        "away"@ != "2"@,
        "away"@ != "draw"@,
        "away"@ != "tie"@,
        "away"@ != "x"@,
        "1"@ != "2"@,
        "1"@ != "x"@,
        "2"@ != "x"@,
        "1"@ != "part1"@,
        "1"@ != "part2"@,
        "2"@ != "part1"@,
        "2"@ != "part2"@,
        "x"@ != "part1"@,
        "x"@ != "part2"@,
        "1"@ != "participant1"@,
        "1"@ != "participant2"@,
        "2"@ != "participant1"@,
        "2"@ != "participant2"@,
        "x"@ != "participant1"@,
        "x"@ != "participant2"@,
        "1"@ != "draw"@,
        "1"@ != "tie"@,
        "2"@ != "draw"@,
        "2"@ != "tie"@,
        "part1"@ != "part2"@,
        "part1"@ != "participant1"@,
        "part1"@ != "participant2"@,
        "part2"@ != "participant1"@,
        "part2"@ != "participant2"@,
        "participant1"@ != "participant2"@,
        "part1"@ != "draw"@,
        "part1"@ != "tie"@,
        "part2"@ != "draw"@,
        "part2"@ != "tie"@,
        "participant1"@ != "draw"@,
        "participant1"@ != "tie"@,
        "participant2"@ != "draw"@,
        "participant2"@ != "tie"@,
{
    reveal_strlit("home");
    reveal_strlit("away");
    reveal_strlit("part1");
    reveal_strlit("part2");
    reveal_strlit("participant1");
    reveal_strlit("participant2");
    reveal_strlit("1");
    reveal_strlit("2");
    reveal_strlit("x");
    reveal_strlit("draw");
    reveal_strlit("tie");
    assert("home"@[0] == 'h' && "away"@[0] == 'a' && "draw"@[0] == 'd');
    assert("1"@[0] == '1' && "2"@[0] == '2' && "x"@[0] == 'x');
    assert("part1"@[4] == '1' && "part2"@[4] == '2');
    assert("participant1"@[11] == '1' && "participant2"@[11] == '2');
    assert("home"@.len() == 4 && "away"@.len() == 4 && "draw"@.len() == 4 && "tie"@.len() == 3);
    assert("1"@.len() == 1 && "2"@.len() == 1 && "x"@.len() == 1);
    assert("part1"@.len() == 5 && "part2"@.len() == 5);
    assert("participant1"@.len() == 12 && "participant2"@.len() == 12);
}

/// A label that names nothing itself fits a description exactly when it stands for a side
/// that the description names, or for a draw that the description is about: `part1` and
/// `participant1` for the first participant, `part2` and `participant2` for the second,
/// `home` and `1` for the one at home, `away` and `2` for the other, and `draw`, `tie` and
/// `x` for a draw. Any other label does not fit.
pub proof fn labels_stand_for_their_side(
    label: Seq<char>,
    description: Seq<char>,
    fixture: FixtureModel,
)
    requires
        !names_itself(label, description, fixture),
    ensures
        ({
            let score = fit(label, description, names_of(fixture));
            let a_draw = occurs_in("draw"@, description) || occurs_in("tie"@, description);
            &&& score >= 0
            &&& label == "part1"@ || label == "participant1"@ ==> (score > 0 <==> occurs_in(
                first_name(fixture),
                description,
            ))
            &&& label == "part2"@ || label == "participant2"@ ==> (score > 0 <==> occurs_in(
                second_name(fixture),
                description,
            ))
            &&& label == "home"@ || label == "1"@ ==> (score > 0 <==> occurs_in(
                home_name(fixture),
                description,
            ))
            &&& label == "away"@ || label == "2"@ ==> (score > 0 <==> occurs_in(
                away_name(fixture),
                description,
            ))
            &&& label == "draw"@ || label == "tie"@ || label == "x"@ ==> (score > 0 <==> a_draw)
            &&& label != "part1"@ && label != "participant1"@ && label != "part2"@ && label
                != "participant2"@ && label != "home"@ && label != "1"@ && label != "away"@
                && label != "2"@ && label != "draw"@ && label != "tie"@ && label != "x"@
                ==> score == 0
        }),
{
    lemma_labels_differ();
}

/// Whether a label is for a participant: it holds the name, or it is one of the words for
/// the place or the side of that participant.
pub open spec fn is_for_participant(
    label: Seq<char>,
    name: Seq<char>,
    is_first: bool,
    is_home: bool,
) -> bool {
    ||| occurs_in(name, label)
    ||| is_first && (label == "part1"@ || label == "participant1"@)
    ||| !is_first && (label == "part2"@ || label == "participant2"@)
    ||| is_home && (label == "home"@ || label == "1"@)
    ||| !is_home && (label == "away"@ || label == "2"@)
}

/// A label fits a description exactly when it stands there as it is, with three characters
/// or more, when both are about the same participant, or when both are about a draw.
pub proof fn labels_fit_what_they_are_about(
    label: Seq<char>,
    description: Seq<char>,
    fixture: FixtureModel,
)
    ensures
        fit(label, description, names_of(fixture)) > 0 <==> {
            ||| occurs_in(label, description) && label.len() >= 3
            ||| occurs_in(first_name(fixture), description) && is_for_participant(
                label,
                first_name(fixture),
                true,
                fixture.participant_1_is_home,
            )
            ||| occurs_in(second_name(fixture), description) && is_for_participant(
                label,
                second_name(fixture),
                false,
                !fixture.participant_1_is_home,
            )
            ||| (label == "draw"@ || label == "tie"@ || label == "x"@) && (occurs_in(
                "draw"@,
                description,
            ) || occurs_in("tie"@, description))
        },
        fit(label, description, names_of(fixture)) >= 0,
{
}

/// A label that stands in the description as it is fits better than one that stands for a
/// side, and that one better than one that stands for a draw.
pub proof fn closer_labels_fit_better(
    exact: Seq<char>,
    side: Seq<char>,
    draw: Seq<char>,
    description: Seq<char>,
    fixture: FixtureModel,
)
    requires
        occurs_in(exact, description) && exact.len() >= 3,
        !(occurs_in(side, description) && side.len() >= 3),
        !(occurs_in(draw, description) && draw.len() >= 3),
        (occurs_in(first_name(fixture), side) && occurs_in(first_name(fixture), description)) || (
        occurs_in(second_name(fixture), side) && occurs_in(second_name(fixture), description)) || (
        side == "part1"@ && occurs_in(first_name(fixture), description)) || (side == "part2"@
            && occurs_in(second_name(fixture), description)) || (side == "participant1"@
            && occurs_in(first_name(fixture), description)) || (side == "participant2"@
            && occurs_in(second_name(fixture), description)) || ((side == "home"@ || side == "1"@)
            && occurs_in(home_name(fixture), description)) || ((side == "away"@ || side == "2"@)
            && occurs_in(away_name(fixture), description)),
        draw == "draw"@ || draw == "tie"@ || draw == "x"@,
        !occurs_in(first_name(fixture), draw),
        !occurs_in(second_name(fixture), draw),
    ensures
        fit(exact, description, names_of(fixture)) > fit(side, description, names_of(fixture)),
        fit(side, description, names_of(fixture)) > fit(draw, description, names_of(fixture)),
{
    lemma_labels_differ();
}

/// Where the offer of a price of a line stands among the offers of all lines.
pub open spec fn place_of(
    fixture: FixtureModel,
    market: PascalMarketModel,
    lines: Seq<OddsLineModel>,
    line: int,
    price: int,
) -> int {
    offers(fixture, market, lines.take(line)).len() + price
}

proof fn lemma_offers_grow(
    fixture: FixtureModel,
    market: PascalMarketModel,
    lines: Seq<OddsLineModel>,
    n: int,
)
    requires
        0 <= n <= lines.len(),
    ensures
        ({
            let part = offers(fixture, market, lines.take(n));
            let all = offers(fixture, market, lines);
            &&& part.len() <= all.len()
            &&& forall|k: int| 0 <= k < part.len() ==> part[k] == #[trigger] all[k]
        }),
    decreases lines.len() - n,
{
    if n == lines.len() {
        assert(lines.take(n) =~= lines);
    } else {
        assert(lines.take(n + 1).drop_last() =~= lines.take(n));
        lemma_offers_grow(fixture, market, lines, n + 1);
        let part = offers(fixture, market, lines.take(n));
        let next = offers(fixture, market, lines.take(n + 1));
        let all = offers(fixture, market, lines);
        assert forall|k: int| 0 <= k < part.len() implies part[k] == #[trigger] all[k] by {
            assert(next[k] == all[k]);
        }
    }
}

proof fn lemma_placed_offer(
    fixture: FixtureModel,
    market: PascalMarketModel,
    lines: Seq<OddsLineModel>,
    i: int,
    k: int,
)
    requires
        0 <= i < lines.len(),
        line_fits(market, lines[i]),
        0 <= k < lines[i].price_names.len(),
    ensures
        ({
            let all = offers(fixture, market, lines);
            let place = place_of(fixture, market, lines, i, k);
            &&& 0 <= place < all.len()
            &&& all[place] == offer(fixture, market, lines[i], k)
            &&& place < offers(fixture, market, lines.take(i + 1)).len()
        }),
{
    let part = offers(fixture, market, lines.take(i));
    let next = lines.take(i + 1);
    assert(next.drop_last() =~= lines.take(i));
    assert(next.last() == lines[i]);
    lemma_offers_grow(fixture, market, lines, i + 1);
    let place = part.len() + k;
    assert(offers(fixture, market, next)[place] == line_offers(fixture, market, lines[i])[k]);
}

proof fn lemma_offer_comes_from(
    fixture: FixtureModel,
    market: PascalMarketModel,
    lines: Seq<OddsLineModel>,
    at: int,
) -> (from: (int, int))
    requires
        0 <= at < offers(fixture, market, lines).len(),
    ensures
        ({
            let (i, k) = from;
            &&& 0 <= i < lines.len()
            &&& line_fits(market, lines[i])
            &&& 0 <= k < lines[i].price_names.len()
            &&& at == place_of(fixture, market, lines, i, k)
        }),
    decreases lines.len(),
{
    let rest = lines.drop_last();
    let earlier = offers(fixture, market, rest);
    if at < earlier.len() {
        let (i, k) = lemma_offer_comes_from(fixture, market, rest, at);
        assert(rest.take(i) =~= lines.take(i));
        assert(rest[i] == lines[i]);
        (i, k)
    } else {
        let i = lines.len() - 1;
        assert(lines.take(i) =~= rest);
        assert(lines[i] == lines.last());
        (i, at - earlier.len())
    }
}

/// How well a price of a line fits a market.
pub open spec fn score_of(
    fixture: FixtureModel,
    market: PascalMarketModel,
    line: OddsLineModel,
    price: int,
) -> int {
    fit(
        normalized(line.price_names[price]),
        normalized(market.market_description),
        names_of(fixture),
    )
}

/// Whether price `k` of line `i` is the outcome of a market: its line fits, it fits itself,
/// no price of a line that fits does so better, and every one before it does so worse.
pub open spec fn is_outcome(
    fixture: FixtureModel,
    market: PascalMarketModel,
    lines: Seq<OddsLineModel>,
    i: int,
    k: int,
) -> bool {
    let best = score_of(fixture, market, lines[i], k);
    &&& 0 <= i < lines.len()
    &&& line_fits(market, lines[i])
    &&& 0 <= k < lines[i].price_names.len()
    &&& best > 0
    &&& forall|j: int, m: int|
        0 <= j < lines.len() && line_fits(market, lines[j]) && 0 <= m
            < lines[j].price_names.len() ==> {
            let other = #[trigger] score_of(fixture, market, lines[j], m);
            &&& other <= best
            &&& j < i || (j == i && m < k) ==> other < best
        }
}

/// The outcome of a market is the first of the prices that fit it best, among the lines
/// with its period and its numeric line. There is none exactly when no such price fits.
pub proof fn outcomes_are_the_first_that_fit_best(
    fixture: FixtureModel,
    market: PascalMarketModel,
    lines: Seq<OddsLineModel>,
)
    ensures
        match outcome_for(fixture, market, lines) {
            Some(s) => exists|i: int, k: int| #[trigger]
                is_outcome(fixture, market, lines, i, k) && s == (SelectionModel {
                    super_odds_type: lines[i].super_odds_type,
                    market_parameters: lines[i].market_parameters,
                    market_period: lines[i].market_period,
                    price_index: k,
                    price_name: lines[i].price_names[k],
                }),
            None => forall|j: int, m: int|
                0 <= j < lines.len() && line_fits(market, lines[j]) && 0 <= m
                    < lines[j].price_names.len() ==> #[trigger] score_of(
                    fixture,
                    market,
                    lines[j],
                    m,
                ) == 0,
        },
{
    let all = offers(fixture, market, lines);
    assert forall|i: int| 0 <= i < all.len() implies (#[trigger] all[i]).score >= 0 by {
        let (j, m) = lemma_offer_comes_from(fixture, market, lines, i);
        lemma_placed_offer(fixture, market, lines, j, m);
    }
    best_offer_is_first_and_highest(all);
    match best_offer(all) {
        Some(best) => {
            let at = choose|k: int|
                0 <= k < all.len() && #[trigger] all[k] == best && best.score > 0 && (forall|
                    i: int,
                |
                    0 <= i < all.len() ==> (#[trigger] all[i]).score <= best.score) && (forall|
                    i: int,
                |
                    0 <= i < k ==> (#[trigger] all[i]).score < best.score);
            let (i, k) = lemma_offer_comes_from(fixture, market, lines, at);
            lemma_placed_offer(fixture, market, lines, i, k);
            assert forall|j: int, m: int|
                0 <= j < lines.len() && line_fits(market, lines[j]) && 0 <= m
                    < lines[j].price_names.len() implies {
                let other = #[trigger] score_of(fixture, market, lines[j], m);
                &&& other <= best.score
                &&& j < i || (j == i && m < k) ==> other < best.score
            } by {
                lemma_placed_offer(fixture, market, lines, j, m);
                let place = place_of(fixture, market, lines, j, m);
                assert(all[place].score <= best.score);
                if j < i {
                    lemma_offers_grow(fixture, market, lines.take(i), j + 1);
                    assert(lines.take(i).take(j + 1) =~= lines.take(j + 1));
                    assert(place < at);
                }
            }
            assert(is_outcome(fixture, market, lines, i, k));
        },
        None => {
            assert forall|j: int, m: int|
                0 <= j < lines.len() && line_fits(market, lines[j]) && 0 <= m
                    < lines[j].price_names.len() implies #[trigger] score_of(
                fixture,
                market,
                lines[j],
                m,
            ) == 0 by {
                lemma_placed_offer(fixture, market, lines, j, m);
                let place = place_of(fixture, market, lines, j, m);
                assert(all[place].score == 0);
            }
        },
    }
}

/// A market on one side is never put together with the outcome of the other: where the
/// description names one participant only, the chosen label does not stand for the other
/// one.
pub proof fn outcomes_are_of_the_side_that_is_named(
    fixture: FixtureModel,
    market: PascalMarketModel,
    lines: Seq<OddsLineModel>,
)
    requires
        outcome_for(fixture, market, lines) is Some,
        !names_itself(
            normalized(outcome_for(fixture, market, lines)->0.price_name),
            normalized(market.market_description),
            fixture,
        ),
    ensures
        ({
            let label = normalized(outcome_for(fixture, market, lines)->0.price_name);
            let description = normalized(market.market_description);
            &&& label == "part1"@ || label == "participant1"@ ==> occurs_in(
                first_name(fixture),
                description,
            )
            &&& label == "part2"@ || label == "participant2"@ ==> occurs_in(
                second_name(fixture),
                description,
            )
            &&& label == "home"@ || label == "1"@ ==> occurs_in(home_name(fixture), description)
            &&& label == "away"@ || label == "2"@ ==> occurs_in(away_name(fixture), description)
            &&& label == "draw"@ || label == "tie"@ || label == "x"@ ==> occurs_in(
                "draw"@,
                description,
            ) || occurs_in("tie"@, description)
        }),
{
    outcomes_are_the_first_that_fit_best(fixture, market, lines);
    let s = outcome_for(fixture, market, lines)->0;
    let (i, k) = choose|i: int, k: int| #[trigger]
        is_outcome(fixture, market, lines, i, k) && s == (SelectionModel {
            super_odds_type: lines[i].super_odds_type,
            market_parameters: lines[i].market_parameters,
            market_period: lines[i].market_period,
            price_index: k,
            price_name: lines[i].price_names[k],
        });
    assert(score_of(fixture, market, lines[i], k) > 0);
    labels_stand_for_their_side(
        normalized(s.price_name),
        normalized(market.market_description),
        fixture,
    );
}

/// What a Pascal market says of its period, in letters and digits: its period and then its
/// description.
pub open spec fn period_words(market: PascalMarketModel) -> Seq<char> {
    normalized(market.market_period) + normalized(market.market_description)
}

/// A line for the full time goes with the markets that say so, a line for a half with those
/// on that half, and a line for any other period with the markets that name it. A line that
/// names no period goes with the markets that name no part of a match.
pub proof fn lines_go_with_markets_on_their_period(period: Seq<char>, market: PascalMarketModel)
    ensures
        ({
            let line = normalized(period);
            let words = period_words(market);
            let full = occurs_in("fulltime"@, line) || occurs_in("regtime"@, line);
            let market_full = occurs_in("fulltime"@, words) || occurs_in("regtime"@, words);
            let market_first = occurs_in("firsthalf"@, words) || occurs_in("1sthalf"@, words)
                || occurs_in("half1"@, words);
            let market_second = occurs_in("secondhalf"@, words) || occurs_in("2ndhalf"@, words)
                || occurs_in("half2"@, words);
            let market_part = occurs_in("half"@, words) || occurs_in("quarter"@, words)
                || occurs_in("period"@, words) || occurs_in("inning"@, words) || occurs_in(
                "set"@,
                words,
            );
            &&& line.len() == 0 ==> (periods_agree(period, market) <==> !market_part)
            &&& line.len() > 0 && full ==> (periods_agree(period, market) <==> market_full)
            &&& line.len() > 0 && !full && occurs_in("half1"@, line) ==> (periods_agree(
                period,
                market,
            ) <==> market_first)
            &&& line.len() > 0 && !full && !occurs_in("half1"@, line) && occurs_in("half2"@, line)
                ==> (periods_agree(period, market) <==> market_second)
            &&& line.len() > 0 && !full && !occurs_in("half1"@, line) && !occurs_in("half2"@, line)
                ==> (periods_agree(period, market) <==> occurs_in(line, words))
        }),
{
    let gap = " "@;
    reveal_strlit(" ");
    assert(gap =~= seq![' ']);
    names_are_compared_by_letters_and_digits(market.market_period, gap, ' ');
    names_are_compared_by_letters_and_digits(
        market.market_period + gap,
        market.market_description,
        ' ',
    );
    assert(normalized(market.market_period) + Seq::<char>::empty() =~= normalized(
        market.market_period,
    ));
    assert(pascal_period(market) == period_words(market));
}

/// Whether a character can be part of a number.
pub open spec fn of_a_number(c: char) -> bool {
    ('0' <= c && c <= '9') || c == '.'
}

/// Whether the characters from `from` to `to` are one number of a text: a sign may stand in
/// front, digits and points follow, no more of them stand on either side, and no letter
/// stands right behind.
pub open spec fn number_at(s: Seq<char>, from: int, to: int) -> bool {
    &&& 0 <= from < to <= s.len()
    &&& of_a_number(s[from]) || s[from] == '-'
    &&& forall|i: int| from < i < to ==> of_a_number(#[trigger] s[i])
    &&& to < s.len() ==> !of_a_number(s[to]) && !('a' <= s[to] && s[to] <= 'z') && !('A' <= s[to]
        && s[to] <= 'Z')
    &&& from > 0 ==> !of_a_number(s[from - 1])
}

proof fn lemma_scan_start(s: Seq<char>, count: int)
    requires
        0 <= count <= s.len(),
    ensures
        number_scan(s, count).start matches Some(at) ==> {
            &&& 0 <= at < count
            &&& of_a_number(s[at]) || s[at] == '-'
            &&& forall|i: int| at < i < count ==> of_a_number(#[trigger] s[i])
            &&& at > 0 ==> !of_a_number(s[at - 1])
        },
        number_scan(s, count).start is None && count > 0 ==> !of_a_number(s[count - 1]),
    decreases count,
{
    if count > 0 {
        lemma_scan_start(s, count - 1);
    }
}

proof fn lemma_scan_runs(s: Seq<char>, from: int, to: int)
    requires
        0 <= from < to <= s.len(),
        number_scan(s, from).start is None,
        of_a_number(s[from]) || s[from] == '-',
        forall|i: int| from < i < to ==> of_a_number(#[trigger] s[i]),
    ensures
        number_scan(s, to).start == Some(from),
        number_scan(s, to).numbers == number_scan(s, from).numbers,
    decreases to - from,
{
    if to > from + 1 {
        lemma_scan_runs(s, from, to - 1);
        assert(of_a_number(s[to - 1]));
    }
}

proof fn lemma_scan_keeps(s: Seq<char>, count: int, later: int)
    requires
        0 <= count <= later <= s.len(),
    ensures
        number_scan(s, count).numbers.len() <= number_scan(s, later).numbers.len(),
        forall|i: int|
            0 <= i < number_scan(s, count).numbers.len() ==> number_scan(s, count).numbers[i]
                == #[trigger] number_scan(s, later).numbers[i],
    decreases later - count,
{
    if count < later {
        lemma_scan_keeps(s, count, later - 1);
        let a = number_scan(s, count).numbers;
        let b = number_scan(s, later - 1).numbers;
        let c = number_scan(s, later).numbers;
        assert forall|i: int| 0 <= i < a.len() implies a[i] == #[trigger] c[i] by {
            assert(b[i] == c[i]);
        }
    }
}

/// Every number that stands by itself in a text is found there, in its shortest form: one
/// that begins the text or follows a character that belongs to no number, and ends it or is
/// followed by what is neither part of it nor a letter.
pub proof fn numbers_that_stand_alone_are_found(
    before: Seq<char>,
    number: Seq<char>,
    after: Seq<char>,
)
    requires
        number.len() > 0,
        of_a_number(number[0]) || number[0] == '-',
        forall|i: int| 0 < i < number.len() ==> of_a_number(#[trigger] number[i]),
        before.len() > 0 ==> !of_a_number(before.last()) && before.last() != '-',
        after.len() > 0 ==> !of_a_number(after[0]) && !('a' <= after[0] && after[0] <= 'z') && !(
        'A' <= after[0] && after[0] <= 'Z'),
        canonical(number) is Some,
    ensures
        numbers_in(before + number + after).contains(canonical(number)->0),
{
    let s = before + number + after;
    let from = before.len() as int;
    let to = from + number.len();
    if from > 0 {
        assert(s[from - 1] == before.last());
        lemma_scan_start(s, from);
        assert(number_scan(s, from).start is None);
    }
    assert(s[from] == number[0]);
    assert forall|i: int| from < i < to implies of_a_number(#[trigger] s[i]) by {
        assert(s[i] == number[i - from]);
    }
    lemma_scan_runs(s, from, to);
    let found = canonical(number)->0;
    if to < s.len() {
        assert(s[to] == after[0]);
        assert(s.subrange(from, to) =~= number);
        let next = number_scan(s, to + 1);
        assert(next.numbers == number_scan(s, to).numbers.push(found));
        let k = next.numbers.len() - 1;
        assert(next.numbers[k] == found);
        lemma_scan_keeps(s, to + 1, s.len() as int);
        assert(number_scan(s, s.len() as int).numbers[k] == found);
        assert(numbers_in(s)[k] == found);
    } else {
        assert(s.skip(from) =~= number);
        let all = numbers_in(s);
        assert(all[all.len() - 1] == found);
    }
}

/// What is found in a text as a number is the shortest form of a number that stands there.
pub proof fn found_numbers_stand_in_the_text(s: Seq<char>, number: Seq<char>)
    requires
        numbers_in(s).contains(number),
    ensures
        exists|from: int, to: int| #[trigger]
            number_at(s, from, to) && canonical(s.subrange(from, to)) == Some(number),
{
    let all = numbers_in(s);
    let n = s.len() as int;
    let i = choose|i: int| 0 <= i < all.len() && all[i] == number;
    let end = number_scan(s, n);
    if i < end.numbers.len() {
        lemma_found(s, n, i);
    } else {
        let at = end.start->0;
        lemma_scan_start(s, n);
        assert(s.skip(at) =~= s.subrange(at, n));
        assert(number_at(s, at, n));
    }
}

proof fn lemma_found(s: Seq<char>, count: int, i: int)
    requires
        0 <= count <= s.len(),
        0 <= i < number_scan(s, count).numbers.len(),
    ensures
        exists|from: int, to: int| #[trigger]
            number_at(s, from, to) && canonical(s.subrange(from, to)) == Some(
                number_scan(s, count).numbers[i],
            ),
    decreases count,
{
    if count > 0 {
        let before = number_scan(s, count - 1);
        if i < before.numbers.len() {
            lemma_found(s, count - 1, i);
        } else {
            let at = before.start->0;
            lemma_scan_start(s, count - 1);
            assert(number_at(s, at, count - 1));
        }
    }
}

/// One parameter gives a line when its name is `line`, in any letters and with white space
/// around it: the number behind the equals sign, in its shortest form. Any other parameter
/// gives none.
pub proof fn only_the_line_parameter_gives_a_line(name: Seq<char>, value: Seq<char>)
    requires
        forall|i: int| 0 <= i < name.len() ==> #[trigger] name[i] != '=',
    ensures
        small_text(trimmed(name)) == "line"@ ==> line_in(name + seq!['='] + value) == canonical(
            trimmed(value),
        ),
        small_text(trimmed(name)) != "line"@ ==> line_in(name + seq!['='] + value) is None,
        line_in(name) is None,
{
    let whole = name + seq!['='] + value;
    lemma_length_before(whole, '=');
    lemma_length_before(name, '=');
    let n = length_before(whole, '=');
    assert(whole[name.len() as int] == '=');
    if n < name.len() {
        assert(whole[n] == name[n]);
    }
    assert(n == name.len());
    assert(whole.take(n) =~= name);
    assert(whole.skip(n + 1) =~= value);
    if length_before(name, '=') < name.len() {
        assert(name[length_before(name, '=')] == '=');
    }
}

/// Parameters are separated by commas, semicolons or ampersands, and the first that gives a
/// line decides.
pub proof fn the_first_line_parameter_decides(first: Seq<char>, mark: char, rest: Seq<char>)
    requires
        forall|i: int|
            0 <= i < first.len() ==> #[trigger] first[i] != ',' && first[i] != ';' && first[i]
                != '&',
        mark == ',' || mark == ';' || mark == '&',
    ensures
        line_from(first, 0, 0) == line_in(first),
        line_from(first + seq![mark] + rest, 0, 0) == match line_in(first) {
            Some(line) => Some(line),
            None => line_from(rest, 0, 0),
        },
{
    let whole = first + seq![mark] + rest;
    lemma_line_skips(first, 0, 0, first.len() as int);
    assert(first.subrange(0, first.len() as int) =~= first);
    lemma_line_skips(whole, 0, 0, first.len() as int);
    let n = first.len() as int;
    assert(whole[n] == mark);
    assert(whole.subrange(0, n) =~= first);
    assert(whole.skip(n + 1) =~= rest);
    lemma_line_shifted(whole, rest, n + 1, n + 1);
}

proof fn lemma_line_skips(s: Seq<char>, begin: int, from: int, to: int)
    requires
        0 <= begin <= from <= to <= s.len(),
        forall|i: int|
            from <= i < to ==> #[trigger] s[i] != ',' && s[i] != ';' && s[i] != '&',
    ensures
        line_from(s, begin, from) == line_from(s, begin, to),
    decreases to - from,
{
    if from < to {
        assert(!separates(s[from]));
        lemma_line_skips(s, begin, from + 1, to);
    }
}

proof fn lemma_line_shifted(whole: Seq<char>, rest: Seq<char>, begin: int, from: int)
    requires
        rest.len() <= whole.len(),
        rest == whole.skip(whole.len() - rest.len()),
        whole.len() - rest.len() <= begin <= from <= whole.len(),
    ensures
        line_from(whole, begin, from) == line_from(
            rest,
            begin - (whole.len() - rest.len()),
            from - (whole.len() - rest.len()),
        ),
    decreases whole.len() - from,
{
    let shift = whole.len() - rest.len();
    if from >= whole.len() {
        assert(whole.subrange(begin, whole.len() as int) =~= rest.subrange(
            begin - shift,
            rest.len() as int,
        ));
    } else {
        assert(whole[from] == rest[from - shift]);
        assert(whole.subrange(begin, from) =~= rest.subrange(begin - shift, from - shift));
        if separates(whole[from]) {
            lemma_line_shifted(whole, rest, from + 1, from + 1);
        } else {
            lemma_line_shifted(whole, rest, begin, from + 1);
        }
    }
}

/// A line without parameters fits any description. One with parameters fits exactly when
/// they give a line that is one of the numbers in the description.
pub proof fn lines_fit_the_numbers_in_the_description(
    parameters: Seq<char>,
    description: Seq<char>,
)
    ensures
        trimmed(parameters).len() == 0 ==> parameters_fit(parameters, description),
        trimmed(parameters).len() > 0 ==> (parameters_fit(parameters, description) <==> (line_from(
            trimmed(parameters),
            0,
            0,
        ) matches Some(line) && numbers_in(description).contains(line))),
{
}

/// A fixture is tried exactly when it is listed, is not over, is the wanted one where one is
/// wanted, and started no more than six hours ago.
pub proof fn fixtures_are_tried_while_they_are_of_interest(
    fixtures: Seq<FixtureModel>,
    wanted: Option<u64>,
    now_ms: int,
    fixture: FixtureModel,
)
    requires
        0 <= fixture.start_time_ms,
        fixture.start_time_ms + 21_600_000 <= u64::MAX,
    ensures
        candidates(fixtures, wanted, now_ms).contains(fixture) <==> fixtures.contains(fixture)
            && fixture.game_state != Some(6u64) && (wanted matches Some(id) ==> fixture.fixture_id
            == id) && now_ms <= fixture.start_time_ms + 21_600_000,
{
    let pick = candidacy(wanted, now_ms);
    lemma_those_contain(fixtures, pick, fixture);
    lemma_in_order_contains(those(fixtures, pick), fixture_order(now_ms), fixture);
}

proof fn lemma_those_contain<T>(s: Seq<T>, property: spec_fn(T) -> bool, x: T)
    ensures
        those(s, property).contains(x) <==> s.contains(x) && property(x),
    decreases s.len(),
{
    if s.len() > 0 {
        let rest = s.drop_last();
        lemma_those_contain(rest, property, x);
        let part = those(rest, property);
        let all = those(s, property);
        lemma_push_contains(rest, s.last(), x);
        assert(rest.push(s.last()) =~= s);
        lemma_push_contains(part, s.last(), x);
    }
}

proof fn lemma_push_contains<T>(s: Seq<T>, last: T, x: T)
    ensures
        s.push(last).contains(x) <==> s.contains(x) || x == last,
{
    if s.contains(x) {
        let i = choose|i: int| 0 <= i < s.len() && s[i] == x;
        assert(s.push(last)[i] == x);
    }
    if x == last {
        assert(s.push(last)[s.len() as int] == x);
    }
    if s.push(last).contains(x) {
        let i = choose|i: int| 0 <= i < s.push(last).len() && s.push(last)[i] == x;
        if i < s.len() {
            assert(s[i] == x);
        }
    }
}

proof fn lemma_placed_contains<T>(s: Seq<T>, y: T, before: spec_fn(T, T) -> bool, x: T)
    ensures
        placed(s, y, before).contains(x) <==> s.contains(x) || x == y,
    decreases s.len(),
{
    if s.len() > 0 && before(y, s.last()) {
        let rest = s.drop_last();
        lemma_placed_contains(rest, y, before, x);
        lemma_push_contains(placed(rest, y, before), s.last(), x);
        lemma_push_contains(rest, s.last(), x);
        assert(rest.push(s.last()) =~= s);
    } else {
        lemma_push_contains(s, y, x);
    }
}

proof fn lemma_in_order_contains<T>(s: Seq<T>, before: spec_fn(T, T) -> bool, x: T)
    ensures
        in_order(s, before).contains(x) <==> s.contains(x),
    decreases s.len(),
{
    if s.len() > 0 {
        let rest = s.drop_last();
        lemma_in_order_contains(rest, before, x);
        lemma_placed_contains(in_order(rest, before), s.last(), before, x);
        lemma_push_contains(rest, s.last(), x);
        assert(rest.push(s.last()) =~= s);
    }
}

/// Fixtures that have started are tried before those that have not, and of either kind the
/// one whose start is nearer before one whose start is farther.
pub proof fn nearer_fixtures_are_tried_first(
    fixtures: Seq<FixtureModel>,
    wanted: Option<u64>,
    now_ms: int,
    i: int,
    j: int,
)
    requires
        0 <= i < j < candidates(fixtures, wanted, now_ms).len(),
    ensures
        ({
            let tried = candidates(fixtures, wanted, now_ms);
            let earlier = tried[i].start_time_ms;
            let later = tried[j].start_time_ms;
            &&& later <= now_ms ==> later <= earlier <= now_ms
            &&& earlier > now_ms ==> now_ms < earlier <= later
        }),
{
    orders_by_key(now_ms, 0);
    let picked = those(fixtures, candidacy(wanted, now_ms));
    order_is_stable(picked, fixture_order(now_ms), |f: FixtureModel| false);
    let tried = candidates(fixtures, wanted, now_ms);
    let before = fixture_order(now_ms);
    assert(!before(tried[j], tried[i]));
}

/// A market is tried for a fixture exactly when it is listed and has the wanted symbol, or,
/// where none is wanted, when it names both participants in its event and starts within
/// thirty-six hours of the fixture, as far as it says when it starts.
pub proof fn markets_are_tried_when_both_sides_are_named(
    fixture: FixtureModel,
    markets: Seq<PascalMarketModel>,
    symbol: Option<Seq<char>>,
    market: PascalMarketModel,
)
    ensures
        matches_for(fixture, markets, symbol).contains(market) <==> markets.contains(market)
            && match symbol {
            Some(wanted) => market.symbol == wanted,
            None => {
                let event = normalized(market.event_description);
                &&& occurs_in(first_name(fixture), event)
                &&& occurs_in(second_name(fixture), event)
                &&& market.expected_event_start_time_ms matches Some(start) ==> start
                    - fixture.start_time_ms <= 129_600_000 && fixture.start_time_ms - start
                    <= 129_600_000
            },
        },
{
    let pick = market_choice(fixture, symbol);
    lemma_those_contain(markets, pick, market);
    lemma_in_order_contains(
        those(markets, pick),
        market_order(fixture.start_time_ms),
        market,
    );
}

/// Markets whose start is nearer to that of the fixture are tried before those whose start
/// is farther, and those that do not say when they start come last.
pub proof fn nearer_markets_are_tried_first(
    fixture: FixtureModel,
    markets: Seq<PascalMarketModel>,
    symbol: Option<Seq<char>>,
    i: int,
    j: int,
)
    requires
        0 <= i < j < matches_for(fixture, markets, symbol).len(),
        0 <= fixture.start_time_ms <= u64::MAX,
    ensures
        ({
            let tried = matches_for(fixture, markets, symbol);
            let at = fixture.start_time_ms;
            match (tried[i].expected_event_start_time_ms, tried[j].expected_event_start_time_ms) {
                (Some(a), Some(b)) => {
                    let near = if a >= at {
                        a - at
                    } else {
                        at - a
                    };
                    let far = if b >= at {
                        b - at
                    } else {
                        at - b
                    };
                    near <= far && (near == far ==> !text_less(
                        tried[j].symbol,
                        tried[i].symbol,
                    ))
                },
                (None, Some(b)) => (b == 0 && at == u64::MAX) || (b == u64::MAX && at == 0),
                _ => true,
            }
        }),
{
    let at = fixture.start_time_ms;
    orders_by_key(0, at);
    let picked = those(markets, market_choice(fixture, symbol));
    order_is_stable(picked, market_order(at), |m: PascalMarketModel| false);
    let tried = matches_for(fixture, markets, symbol);
    let before = market_order(at);
    assert(!before(tried[j], tried[i]));
}

/// A fixture is put together with the first of the markets tried for it that has an outcome.
/// The mapping names the fixture, the market's symbol and that outcome; the market is
/// called by its symbol unless another name is given.
pub proof fn feeds_name_the_first_market_with_an_outcome(
    config: DiscoveryModel,
    fixture: FixtureModel,
    markets: Seq<PascalMarketModel>,
    lines: Seq<OddsLineModel>,
)
    ensures
        ({
            let tried = matches_for(fixture, markets, config.pascal_symbol_override);
            match fixture_feed(config, fixture, markets, lines) {
                None => forall|i: int|
                    0 <= i < tried.len() ==> outcome_for(fixture, #[trigger] tried[i], lines)
                        is None,
                Some(feed) => exists|i: int|
                    0 <= i < tried.len() && (forall|j: int|
                        0 <= j < i ==> outcome_for(fixture, #[trigger] tried[j], lines) is None)
                        && is_feed_of(config, fixture, #[trigger] tried[i], lines, feed),
            }
        }),
{
    lemma_feed_from(
        config,
        fixture,
        matches_for(fixture, markets, config.pascal_symbol_override),
        lines,
        0,
    );
}

/// Whether a feed is that of a fixture, a market and the market's outcome.
pub open spec fn is_feed_of(
    config: DiscoveryModel,
    fixture: FixtureModel,
    market: PascalMarketModel,
    lines: Seq<OddsLineModel>,
    feed: ResolvedModel,
) -> bool {
    &&& outcome_for(fixture, market, lines) == Some(feed.mapping.txline_selection)
    &&& feed.mapping.fixture_id == fixture.fixture_id
    &&& feed.mapping.fixture_start_time_ms == fixture.start_time_ms
    &&& feed.mapping.pascal_symbol == market.symbol
    &&& config.market_override is None ==> feed.mapping.market == market.symbol
    &&& config.market_override matches Some(name) ==> feed.mapping.market == name
    &&& feed.mapping.fixture_label == feed.event_label
    &&& fixture.participant_1_is_home ==> feed.event_label == fixture.participant_1 + " vs "@
        + fixture.participant_2
    &&& !fixture.participant_1_is_home ==> feed.event_label == fixture.participant_2 + " vs "@
        + fixture.participant_1
    &&& feed.contract_label == market.market_description
    &&& feed.market_period == market.market_period
    &&& feed.expected_event_start_time_ms == market.expected_event_start_time_ms
    &&& feed.txline_origin == config.txline_origin
    &&& feed.api_token == config.api_token
    &&& feed.pascal_ws == config.pascal_ws
}

proof fn lemma_feed_from(
    config: DiscoveryModel,
    fixture: FixtureModel,
    tried: Seq<PascalMarketModel>,
    lines: Seq<OddsLineModel>,
    from: int,
)
    requires
        0 <= from,
    ensures
        match feed_from(config, fixture, tried, lines, from) {
            None => forall|i: int|
                from <= i < tried.len() ==> outcome_for(fixture, #[trigger] tried[i], lines)
                    is None,
            Some(feed) => exists|i: int|
                from <= i < tried.len() && (forall|j: int|
                    from <= j < i ==> outcome_for(fixture, #[trigger] tried[j], lines) is None)
                    && is_feed_of(config, fixture, #[trigger] tried[i], lines, feed),
        },
    decreases tried.len() - from,
{
    if from < tried.len() {
        match outcome_for(fixture, tried[from], lines) {
            Some(_) => {
                let feed = feed_from(config, fixture, tried, lines, from)->0;
                assert(is_feed_of(config, fixture, tried[from], lines, feed));
            },
            None => {
                lemma_feed_from(config, fixture, tried, lines, from + 1);
                match feed_from(config, fixture, tried, lines, from) {
                    Some(feed) => {
                        let i = choose|i: int|
                            from + 1 <= i < tried.len() && (forall|j: int|
                                from + 1 <= j < i ==> outcome_for(
                                    fixture,
                                    #[trigger] tried[j],
                                    lines,
                                ) is None) && is_feed_of(
                                config,
                                fixture,
                                #[trigger] tried[i],
                                lines,
                                feed,
                            );
                        assert forall|j: int| from <= j < i implies outcome_for(
                            fixture,
                            #[trigger] tried[j],
                            lines,
                        ) is None by {}
                        assert(is_feed_of(config, fixture, tried[i], lines, feed));
                    },
                    None => {},
                }
            },
        }
    }
}

/// The odds of fixtures are asked for in turn: the next fixture is the first, from the place
/// at hand on, for which there is a market to try.
pub proof fn fixtures_without_markets_are_passed_over(
    config: DiscoveryModel,
    fixtures: Seq<FixtureModel>,
    markets: Seq<PascalMarketModel>,
    from: int,
)
    requires
        0 <= from,
    ensures
        match next_with_markets(config, fixtures, markets, from) {
            Some(i) => {
                &&& from <= i < fixtures.len()
                &&& matches_for(fixtures[i], markets, config.pascal_symbol_override).len() > 0
                &&& forall|j: int|
                    from <= j < i ==> matches_for(
                        #[trigger] fixtures[j],
                        markets,
                        config.pascal_symbol_override,
                    ).len() == 0
            },
            None => forall|j: int|
                from <= j < fixtures.len() ==> matches_for(
                    #[trigger] fixtures[j],
                    markets,
                    config.pascal_symbol_override,
                ).len() == 0,
        },
    decreases fixtures.len() - from,
{
    if from < fixtures.len() && matches_for(
        fixtures[from],
        markets,
        config.pascal_symbol_override,
    ).len() == 0 {
        fixtures_without_markets_are_passed_over(config, fixtures, markets, from + 1);
    }
}

/// Whether a variable is set to something that is not blank.
pub open spec fn is_set(value: Option<String>) -> bool {
    value matches Some(text) && !blank(text@)
}

/// Discovery needs an API token, and a wanted fixture has to be a number. What an operator
/// asks for goes before what the environment says; blank values of the environment do not
/// count; and the addresses of both feeds have defaults.
pub proof fn requests_go_before_the_environment(
    environment: EnvironmentValues,
    market: Option<Seq<char>>,
    symbol: Option<Seq<char>>,
)
    ensures
        ({
            let read = discovery_settings(environment, market, symbol);
            let wanted = environment.txline_fixture_id->0@;
            let bad_fixture = is_set(environment.txline_fixture_id) && u64_written(wanted) is None;
            &&& bad_fixture ==> read == Err::<DiscoveryModel, DiscoveryError>(
                DiscoveryError::FixtureId,
            )
            &&& !bad_fixture && !is_set(environment.txline_api_token) ==> read == Err::<
                DiscoveryModel,
                DiscoveryError,
            >(DiscoveryError::MissingToken)
            &&& read is Ok <==> !bad_fixture && is_set(environment.txline_api_token)
            &&& read matches Ok(c) ==> {
                &&& c.api_token == environment.txline_api_token->0@
                &&& c.fixture_id_override is Some <==> is_set(environment.txline_fixture_id)
                &&& is_set(environment.txline_fixture_id) ==> Some(
                    c.fixture_id_override->0 as int,
                ) == u64_written(wanted)
                &&& market is Some ==> c.market_override == market
                &&& market is None && is_set(environment.txline_market) ==> c.market_override
                    == Some(environment.txline_market->0@)
                &&& market is None && !is_set(environment.txline_market)
                    ==> c.market_override is None
                &&& symbol is Some ==> c.pascal_symbol_override == symbol
                &&& symbol is None && is_set(environment.pascal_symbol)
                    ==> c.pascal_symbol_override == Some(environment.pascal_symbol->0@)
                &&& symbol is None && !is_set(environment.pascal_symbol)
                    ==> c.pascal_symbol_override is None
                &&& environment.txline_origin matches Some(origin) ==> c.txline_origin == origin@
                &&& environment.txline_origin is None ==> c.txline_origin
                    == "https://txline-dev.txodds.com"@
                &&& environment.pascal_ws_url matches Some(url) ==> c.pascal_ws == url@
                &&& environment.pascal_ws_url is None ==> c.pascal_ws
                    == "wss://data.pascal.trade/ws"@
            }
        }),
{
    if is_set(environment.txline_fixture_id) {
        unsigned_texts_fit(environment.txline_fixture_id->0@);
    }
}

} // verus!
