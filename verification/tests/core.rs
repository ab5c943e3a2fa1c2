use edgerunner::clock::{capped_nanos, datetime_from_ns};
use edgerunner::config::BackendConfig;
use edgerunner::feeds::FeedStatusMap;
use edgerunner::fixed::{sat_add, sat_div, sat_mul, sat_sub, to_signed};
use edgerunner::session::{feed_status_for, FeedMode};
use edgerunner::simulation::events;
use edgerunner::text::{parse_i64, parse_u64, to_chars};
use edgerunner::{
    DislocationConfig, DislocationTaker, EventEnvelope, ExecutionVenue, FeedStatus, MarketEvent,
    MarketState, OrderIntent, OrderIntentKind, OrderMode, PaperConfig, PaperVenue, Price,
    PriceError, RiskConfig, RiskDecision, RiskEngine, Side, Strategy,
};

fn intent() -> OrderIntent {
    OrderIntent {
        id: 7,
        market: "m".into(),
        kind: OrderIntentKind::Entry,
        side: Side::Bid,
        limit_price: Price::from_micros(500_000).unwrap(),
        quantity: 10,
        expected_edge_micros: 20_000,
        created_time_ns: 1_000,
        source_message_id: None,
        source_proof_ts: None,
    }
}

fn rejected(reason: &str) -> RiskDecision {
    RiskDecision::Rejected {
        reason: reason.into(),
    }
}

#[test]
fn parses_fixed_prices_without_float_rounding() {
    assert_eq!(Price::from_decimal("0.53").unwrap().micros(), 530_000);
    assert_eq!(Price::from_decimal("1").unwrap(), Price::one());
    assert_eq!(Price::from_decimal("1.1"), Err(PriceError::OutOfRange));
    assert_eq!(Price::from_decimal("0.1234567"), Err(PriceError::Invalid));
}

#[test]
fn prices_reject_what_is_no_price() {
    assert_eq!(Price::from_micros(-1), Err(PriceError::OutOfRange));
    assert_eq!(Price::from_micros(1_000_001), Err(PriceError::OutOfRange));
    assert_eq!(Price::from_decimal(""), Err(PriceError::Invalid));
    assert_eq!(Price::from_decimal(".5"), Err(PriceError::Invalid));
    assert_eq!(Price::from_decimal("0.5x"), Err(PriceError::Invalid));
    assert_eq!(Price::from_decimal("-1"), Err(PriceError::Invalid));
    assert_eq!(
        Price::from_decimal("99999999999999999999"),
        Err(PriceError::Invalid)
    );
    assert_eq!(
        Price::from_decimal("9223372036854775807"),
        Err(PriceError::OutOfRange)
    );
    assert_eq!(Price::from_decimal(" 0.25\u{a0}").unwrap().micros(), 250_000);
    assert_eq!(Price::from_decimal("-0.5").unwrap().micros(), 500_000);
    assert_eq!(Price::from_decimal("+1.").unwrap(), Price::one());
    assert_eq!(Price::from_decimal("0.000001").unwrap().micros(), 1);
    assert_eq!(PriceError::Invalid.message(), "invalid decimal price");
    assert_eq!(PriceError::OutOfRange.message(), "price is outside [0, 1]");
}

#[test]
fn prices_write_read_complement_and_subtract() {
    for micros in [0, 1, 999_999, 530_000, 1_000_000, 42] {
        let price = Price::from_micros(micros).unwrap();
        assert_eq!(Price::from_decimal(&price.to_string()).unwrap(), price);
        assert_eq!(price.complement().complement(), price);
        assert_eq!(price.complement().micros(), 1_000_000 - micros);
    }
    assert_eq!(Price::from_micros(530_000).unwrap().to_string(), "0.530000");
    assert_eq!(Price::one().to_string(), "1.000000");
    let a = Price::from_micros(200_000).unwrap();
    let b = Price::from_micros(700_000).unwrap();
    assert_eq!(a - b, -500_000);
    assert_eq!(a.abs_diff(b), 500_000);
    assert_eq!(b.abs_diff(a), 500_000);
    assert_eq!(Price::default(), Price::zero());
}

#[test]
fn arithmetic_stops_at_the_ends_of_the_range() {
    assert_eq!(sat_add(i64::MAX, 1), i64::MAX);
    assert_eq!(sat_sub(i64::MIN, 1), i64::MIN);
    assert_eq!(sat_mul(i64::MAX, -2), i64::MIN);
    assert_eq!(sat_mul(-3, 7), -21);
    assert_eq!(sat_div(i64::MIN, -1), i64::MAX);
    assert_eq!(sat_div(-7, 2), -3);
    assert_eq!(sat_div(7, -2), -3);
    assert_eq!(to_signed(u64::MAX), -1);
    assert_eq!(to_signed(5), 5);
}

#[test]
fn integers_are_read_as_written() {
    assert_eq!(parse_i64(&to_chars("-9223372036854775808")), Some(i64::MIN));
    assert_eq!(parse_i64(&to_chars("9223372036854775808")), None);
    assert_eq!(parse_i64(&to_chars("+7")), Some(7));
    assert_eq!(parse_i64(&to_chars("-")), None);
    assert_eq!(parse_i64(&to_chars("1 ")), None);
    assert_eq!(parse_u64(&to_chars("18446744073709551615")), Some(u64::MAX));
    assert_eq!(parse_u64(&to_chars("18446744073709551616")), None);
    assert_eq!(parse_u64(&to_chars("-0")), None);
    assert_eq!(parse_u64(&to_chars("000000000000000000000012")), Some(12));
}

#[test]
fn nanoseconds_become_dates() {
    let at = datetime_from_ns(1_784_022_342_409_000_123);
    assert_eq!(at.seconds, 1_784_022_342);
    assert_eq!(at.nanos, 409_000_123);
    assert_eq!(datetime_from_ns(u64::MAX).seconds, 18_446_744_073);
}

#[test]
fn rejects_stale_and_killed_orders() {
    let mut risk = RiskEngine::new(RiskConfig::default());
    let state = MarketState {
        last_fair_time_ns: 1,
        last_book_time_ns: 1,
        ..Default::default()
    };
    assert!(matches!(
        risk.evaluate(&intent(), &state, 3_000_000_000),
        RiskDecision::Rejected { .. }
    ));
    assert_eq!(
        risk.evaluate(&intent(), &state, 3_000_000_000),
        rejected("feed is stale")
    );

    risk.set_killed(true);
    assert_eq!(
        risk.evaluate(&intent(), &state, 1),
        RiskDecision::Rejected {
            reason: "kill switch active".into()
        }
    );
}

#[test]
fn notional_limit_covers_resulting_total_position() {
    let mut risk = RiskEngine::new(RiskConfig::default());
    let state = MarketState {
        position: 170,
        last_fair_time_ns: 1_000,
        last_book_time_ns: 1_000,
        ..Default::default()
    };
    let mut order = intent();
    order.quantity = 25;
    order.limit_price = Price::from_micros(600_000).unwrap();
    assert_eq!(
        risk.evaluate(&order, &state, 1_000),
        RiskDecision::Rejected {
            reason: "total notional limit exceeded".into()
        }
    );
}

#[test]
fn never_approves_a_position_limit_breach() {
    for position in -200_i64..=200 {
        for quantity in [1_u64, 2, 37, 99, 100] {
            for is_bid in [true, false] {
                let config = RiskConfig {
                    max_position: 100,
                    max_notional_micros: i64::MAX,
                    ..RiskConfig::default()
                };
                let mut risk = RiskEngine::new(config);
                let state = MarketState {
                    position,
                    last_fair_time_ns: 10,
                    last_book_time_ns: 10,
                    ..Default::default()
                };
                let mut order = intent();
                order.side = if is_bid { Side::Bid } else { Side::Ask };
                order.quantity = quantity;
                let delta = if is_bid {
                    quantity as i64
                } else {
                    -(quantity as i64)
                };
                let answer = risk.evaluate(&order, &state, 10);
                if position.saturating_add(delta).abs() > 100 {
                    assert_eq!(answer, rejected("position limit exceeded"));
                } else {
                    assert_eq!(answer, RiskDecision::Approved);
                }
            }
        }
    }
}

#[test]
fn each_gate_gives_its_reason() {
    let fresh = MarketState {
        last_fair_time_ns: 1_000,
        last_book_time_ns: 1_000,
        ..Default::default()
    };
    let mut risk = RiskEngine::new(RiskConfig::default());
    let mut danger = fresh.clone();
    danger.danger = true;
    assert_eq!(
        risk.evaluate(&intent(), &danger, 1_000),
        rejected("market safety circuit active")
    );
    let mut loss = fresh.clone();
    loss.pnl_micros = -15_000_001;
    assert_eq!(
        risk.evaluate(&intent(), &loss, 1_000),
        rejected("drawdown limit exceeded")
    );
    loss.pnl_micros = -15_000_000;
    assert_eq!(risk.evaluate(&intent(), &loss, 1_000), RiskDecision::Approved);
}

#[test]
fn order_rate_counts_a_rolling_minute() {
    let mut risk = RiskEngine::new(RiskConfig {
        max_orders_per_minute: 2,
        feed_stale_after_ms: u64::MAX,
        ..RiskConfig::default()
    });
    let state = MarketState::default();
    let start = 100_000_000_000_u64;
    assert_eq!(risk.evaluate(&intent(), &state, start), RiskDecision::Approved);
    assert_eq!(
        risk.evaluate(&intent(), &state, start + 1),
        RiskDecision::Approved
    );
    assert_eq!(
        risk.evaluate(&intent(), &state, start + 60_000_000_000),
        rejected("order rate exceeded")
    );
    assert_eq!(
        risk.evaluate(&intent(), &state, start + 60_000_000_001),
        RiskDecision::Approved
    );
    assert_eq!(
        risk.evaluate(&intent(), &state, start + 60_000_000_001),
        rejected("order rate exceeded")
    );
}

#[test]
fn paper_venue_fills_the_visible_top_of_the_book() {
    let venue = PaperVenue::new(PaperConfig::default());
    assert_eq!(venue.mode(), OrderMode::Paper);
    let state = MarketState {
        best_bid: Some(Price::from_micros(480_000).unwrap()),
        best_ask: Some(Price::from_micros(500_000).unwrap()),
        bid_size: 4,
        ask_size: 6,
        ..Default::default()
    };
    let fill = venue.execute(&intent(), &state, 10).unwrap();
    assert_eq!(fill.quantity, 6);
    assert_eq!(fill.price.micros(), 500_000);
    assert_eq!(fill.order_id, 7);
    // 500000 * 500000 / 10^6 = 250000; * 1000 / 10^6 = 250; * 6
    assert_eq!(fill.fee_micros, 1_500);
    assert_eq!(fill.acknowledged_time_ns, 2_000_010);

    let mut sell = intent();
    sell.side = Side::Ask;
    assert!(venue.execute(&sell, &state, 10).is_none());
    sell.limit_price = Price::from_micros(480_000).unwrap();
    assert_eq!(venue.execute(&sell, &state, 10).unwrap().quantity, 4);

    let mut low = intent();
    low.limit_price = Price::from_micros(499_999).unwrap();
    assert!(venue.execute(&low, &state, 10).is_none());
    assert!(venue
        .execute(&intent(), &MarketState::default(), 10)
        .is_none());
    let empty = MarketState {
        ask_size: 0,
        ..state.clone()
    };
    assert!(venue.execute(&intent(), &empty, 10).is_none());
    assert_eq!(PaperConfig::default().fee_micros(666_000, 25), 5_550);
}

#[test]
fn emits_only_for_edge_after_costs() {
    let mut strategy = DislocationTaker::new(DislocationConfig::default());
    let mut state = MarketState {
        market: "ARG-USA".into(),
        fair_value: Some(Price::from_micros(650_000).unwrap()),
        best_bid: Some(Price::from_micros(570_000).unwrap()),
        best_ask: Some(Price::from_micros(580_000).unwrap()),
        ask_size: 10,
        source_seq: 1,
        venue_seq: 1,
        ..Default::default()
    };
    let event = EventEnvelope::new(
        100,
        MarketEvent::FairValue {
            market: state.market.clone(),
            probability: state.fair_value.unwrap(),
            source_seq: 1,
            message_id: None,
            proof_ts: None,
        },
    );
    let evaluations = strategy.on_event(&state, &event);
    assert_eq!(evaluations.len(), 1);
    assert!(evaluations[0].eligible);
    assert_eq!(
        evaluations[0].intent.as_ref().unwrap().kind,
        OrderIntentKind::Entry
    );
    assert_eq!(evaluations[0].intent.as_ref().unwrap().quantity, 10);

    state.fair_value = Some(Price::from_micros(585_000).unwrap());
    state.source_seq = 2;
    let event = EventEnvelope::new(
        200,
        MarketEvent::FairValue {
            market: state.market.clone(),
            probability: state.fair_value.unwrap(),
            source_seq: 2,
            message_id: None,
            proof_ts: None,
        },
    );
    let evaluations = strategy.on_event(&state, &event);
    assert_eq!(evaluations.len(), 1);
    assert!(!evaluations[0].eligible);
    assert!(evaluations[0].reason.contains("below entry threshold"));
    // 585000 - 580000 - 243 - 2500
    assert_eq!(
        evaluations[0].reason,
        "net edge 2257 micros is below entry threshold 50000 micros"
    );
    assert_eq!(strategy.name(), "dislocation_taker");
    assert!(strategy.on_event(&state, &event).is_empty());
}

#[test]
fn exits_an_open_position_only_after_mean_reversion() {
    let mut strategy = DislocationTaker::new(DislocationConfig::default());
    let mut state = MarketState {
        market: "ARG-USA".into(),
        fair_value: Some(Price::from_micros(620_000).unwrap()),
        best_bid: Some(Price::from_micros(605_000).unwrap()),
        best_ask: Some(Price::from_micros(615_000).unwrap()),
        bid_size: 100,
        ask_size: 100,
        position: 25,
        source_seq: 1,
        venue_seq: 1,
        ..Default::default()
    };
    let event = EventEnvelope::new(100, MarketEvent::Timer);
    let event = EventEnvelope {
        event: MarketEvent::Book {
            market: state.market.clone(),
            bid: state.best_bid.unwrap(),
            bid_size: state.bid_size,
            ask: state.best_ask.unwrap(),
            ask_size: state.ask_size,
            venue_seq: 1,
        },
        ..event
    };
    let evaluation = strategy.on_event(&state, &event).pop().unwrap();
    assert!(!evaluation.eligible);
    assert_eq!(
        evaluation.reason,
        "position remains open while edge 12262 micros is above exit threshold 10000 micros"
    );
    assert_eq!(evaluation.intent.unwrap().kind, OrderIntentKind::Exit);

    state.best_bid = Some(Price::from_micros(610_000).unwrap());
    state.venue_seq = 2;
    let event = EventEnvelope::new(
        200,
        MarketEvent::Book {
            market: state.market.clone(),
            bid: state.best_bid.unwrap(),
            bid_size: state.bid_size,
            ask: state.best_ask.unwrap(),
            ask_size: state.ask_size,
            venue_seq: 2,
        },
    );
    let evaluation = strategy.on_event(&state, &event).pop().unwrap();
    assert!(evaluation.eligible);
    let intent = evaluation.intent.unwrap();
    assert_eq!(intent.kind, OrderIntentKind::Exit);
    assert_eq!(intent.side, Side::Ask);
    assert_eq!(intent.quantity, 25);
}

#[test]
fn scales_open_positions_while_entry_edge_remains_high() {
    for (position, fair_value, expected_side) in
        [(25, 650_000, Side::Bid), (-25, 350_000, Side::Ask)]
    {
        let mut strategy = DislocationTaker::new(DislocationConfig::default());
        let state = MarketState {
            market: "ARG-USA".into(),
            fair_value: Some(Price::from_micros(fair_value).unwrap()),
            best_bid: Some(Price::from_micros(420_000).unwrap()),
            best_ask: Some(Price::from_micros(580_000).unwrap()),
            bid_size: 100,
            ask_size: 100,
            position,
            source_seq: 1,
            venue_seq: 1,
            ..Default::default()
        };
        let event = EventEnvelope::new(
            100,
            MarketEvent::Book {
                market: state.market.clone(),
                bid: state.best_bid.unwrap(),
                bid_size: state.bid_size,
                ask: state.best_ask.unwrap(),
                ask_size: state.ask_size,
                venue_seq: 1,
            },
        );
        let evaluation = strategy.on_event(&state, &event).pop().unwrap();
        assert!(evaluation.eligible);
        let intent = evaluation.intent.unwrap();
        assert_eq!(intent.kind, OrderIntentKind::Entry);
        assert_eq!(intent.side, expected_side);
        assert_eq!(intent.quantity, 25);
    }
}

#[test]
fn order_identifier_is_the_digest_of_what_was_decided_on() {
    // The first sixteen bytes of the SHA-256 digest of "m", two little-endian
    // sequence numbers and the bytes of kind and side.
    let mut bytes: Vec<u8> = b"m".to_vec();
    bytes.extend_from_slice(&3_u64.to_le_bytes());
    bytes.extend_from_slice(&4_u64.to_le_bytes());
    bytes.extend_from_slice(&[0, 1]);
    let digest = <sha2::Sha256 as sha2::Digest>::digest(&bytes);
    let mut head = [0_u8; 16];
    head.copy_from_slice(&digest[..16]);

    let mut strategy = DislocationTaker::new(DislocationConfig::default());
    let state = MarketState {
        market: "m".into(),
        fair_value: Some(Price::from_micros(400_000).unwrap()),
        best_bid: Some(Price::from_micros(500_000).unwrap()),
        best_ask: Some(Price::from_micros(510_000).unwrap()),
        bid_size: 5,
        ask_size: 5,
        source_seq: 3,
        venue_seq: 4,
        ..Default::default()
    };
    let event = EventEnvelope::new(
        1,
        MarketEvent::FairValue {
            market: "m".into(),
            probability: Price::from_micros(400_000).unwrap(),
            source_seq: 3,
            message_id: None,
            proof_ts: None,
        },
    );
    let evaluation = strategy.on_event(&state, &event).pop().unwrap();
    let intent = evaluation.intent.unwrap();
    assert_eq!(intent.side, Side::Ask);
    assert_eq!(intent.id, u128::from_be_bytes(head));
}

#[test]
fn strategy_waits_for_both_feeds_and_for_depth() {
    let mut strategy = DislocationTaker::new(DislocationConfig::default());
    let mut state = MarketState {
        source_seq: 1,
        fair_value: Some(Price::from_micros(600_000).unwrap()),
        ..Default::default()
    };
    let event = EventEnvelope::new(
        1,
        MarketEvent::FairValue {
            market: String::new(),
            probability: Price::from_micros(600_000).unwrap(),
            source_seq: 1,
            message_id: None,
            proof_ts: None,
        },
    );
    let evaluation = strategy.on_event(&state, &event).pop().unwrap();
    assert_eq!(
        evaluation.reason,
        "waiting for both fair value and order book"
    );
    assert!(evaluation.intent.is_none());
    state.best_bid = Some(Price::from_micros(500_000).unwrap());
    state.best_ask = Some(Price::from_micros(510_000).unwrap());
    state.venue_seq = 1;
    let evaluation = strategy.on_event(&state, &event).pop().unwrap();
    assert!(!evaluation.eligible);
    assert_eq!(
        evaluation.reason,
        "no visible liquidity at the executable price"
    );
}

#[test]
fn settings_have_safe_defaults() {
    let config = BackendConfig::default();
    assert_eq!(config.decision_history, 100);
    assert_eq!(config.strategy.order_size, 25);
    assert_eq!(config.strategy.latency_haircut_micros, 2_500);
    assert_eq!(config.risk.max_position, 250);
    assert_eq!(config.risk.max_orders_per_minute, 60);
    assert_eq!(config.paper.acknowledgement_delay_ns, 2_000_000);
    assert_eq!(config.engine().mode, OrderMode::Paper);
    assert_eq!(config.engine().decision_history, 100);
    assert!(config.is_usable());
    let mut extreme = config;
    extreme.strategy.latency_haircut_micros = i64::MIN;
    assert!(!extreme.is_usable());
    let mut endless = config;
    endless.risk.max_drawdown_micros = i64::MIN;
    assert!(!endless.is_usable());
}

#[test]
fn scripted_market_is_the_same_for_the_same_tick() {
    let first = events(17, 1_000);
    assert_eq!(first.len(), 2);
    match &first[1].event {
        MarketEvent::FairValue { probability, .. } => {
            // 585000 + (10 - 7) * 2000 + 31000
            assert_eq!(probability.micros(), 622_000);
        }
        _ => panic!("expected a fair value"),
    }
    match &first[0].event {
        MarketEvent::Book { bid, ask, ask_size, .. } => {
            // 584000 + (51 % 13 - 6) * 1000 - 6000
            assert_eq!(bid.micros(), 584_000);
            assert_eq!(ask.micros(), 596_000);
            assert_eq!(*ask_size, 45 + 119 % 50);
        }
        _ => panic!("expected a book"),
    }
    let third = events(37 * 2, 5);
    assert_eq!(third.len(), 3);
    assert_eq!(third[2].received_time_ns, 30_005);
    match &third[2].event {
        MarketEvent::Score { phase, home, danger, suspended, .. } => {
            assert_eq!(phase, "H1");
            assert_eq!(*home, 1);
            assert!(*danger);
            assert!(!*suspended);
        }
        _ => panic!("expected a score"),
    }
}

#[test]
fn redelivered_events_change_nothing() {
    let mut state = MarketState::default();
    let event = EventEnvelope::new(
        9,
        MarketEvent::Book {
            market: "m".into(),
            bid: Price::from_micros(1).unwrap(),
            bid_size: 2,
            ask: Price::from_micros(3).unwrap(),
            ask_size: 4,
            venue_seq: 5,
        },
    );
    assert!(state.apply(&event));
    let once = state.clone();
    assert!(!state.apply(&event));
    assert_eq!(state, once);
    assert_eq!(state.last_book_time_ns, 9);
}

#[test]
fn latencies_are_held_within_64_bits() {
    assert_eq!(capped_nanos(0), 0);
    assert_eq!(capped_nanos(u64::MAX as u128), u64::MAX);
    assert_eq!(capped_nanos(u64::MAX as u128 + 1), u64::MAX);
    assert_eq!(capped_nanos(1_500), 1_500);
}

#[test]
fn feeds_are_listed_by_name() {
    let mut feeds = FeedStatusMap::new();
    assert_eq!(feeds.len(), 0);
    for name in ["b", "a", "ab", "", "c"] {
        feeds.insert(name.into(), FeedStatus::Connecting);
    }
    feeds.insert("b".into(), FeedStatus::Stale);
    assert_eq!(feeds.len(), 5);
    let names: Vec<String> = (0..5).map(|index| feeds.entry(index).0).collect();
    assert_eq!(names, vec!["", "a", "ab", "b", "c"]);
    assert_eq!(feeds.entry(3).1, FeedStatus::Stale);
    let shown = feed_status_for(FeedMode::Live);
    assert_eq!(shown.entry(0).0, "pascal");
    assert_eq!(shown.entry(1).0, "txline");
}

#[test]
fn short_and_spaced_prices_read_back() {
    for micros in [0, 1, 250_000, 530_000, 999_990, 1_000_000] {
        let price = Price::from_micros(micros).unwrap();
        let text = price.to_string();
        let mut short = text.as_str();
        assert_eq!(Price::from_decimal(&format!("\t {text}\u{3000}\n")), Ok(price));
        while let Some(shorter) = short.strip_suffix('0') {
            if !shorter.contains('.') {
                break;
            }
            short = shorter;
            assert_eq!(Price::from_decimal(short), Ok(price));
            assert_eq!(Price::from_decimal(&format!(" {short} ")), Ok(price));
        }
        if let Some(whole) = short.strip_suffix('.') {
            assert_eq!(Price::from_decimal(whole), Ok(price));
        }
    }
}

#[test]
fn orders_are_rejected_for_their_rate_only_while_the_window_is_full() {
    let limit = 3;
    let mut risk = RiskEngine::new(RiskConfig {
        max_orders_per_minute: limit,
        feed_stale_after_ms: u64::MAX,
        ..RiskConfig::default()
    });
    let state = MarketState::default();
    let mut approved: Vec<u64> = Vec::new();
    let mut now = 1_000_000_000_u64;
    for step in 0..200_u64 {
        now += (step * 7_919) % 37 * 1_000_000_000;
        let start = now.saturating_sub(60_000_000_000);
        let held = approved.iter().filter(|time| **time >= start).count();
        match risk.evaluate(&intent(), &state, now) {
            RiskDecision::Approved => {
                assert!(held < limit);
                approved.push(now);
            }
            answer => {
                assert!(held >= limit);
                assert_eq!(answer, rejected("order rate exceeded"));
            }
        }
    }
    assert!(approved.len() > 20 && approved.len() < 200);
}

#[test]
fn requests_under_the_kill_switch_do_not_count_in_the_window() {
    let limit = 3;
    let config = RiskConfig {
        max_orders_per_minute: limit,
        feed_stale_after_ms: u64::MAX,
        ..RiskConfig::default()
    };
    let mut switched = RiskEngine::new(config);
    let mut others = RiskEngine::new(config);
    let state = MarketState::default();
    let mut approved: Vec<u64> = Vec::new();
    let mut refused = 0;
    let mut now = 1_000_000_000_u64;
    for step in 0..300_u64 {
        now += (step * 7_919) % 37 * 1_000_000_000;
        let start = now.saturating_sub(60_000_000_000);
        let held = approved.iter().filter(|time| **time >= start).count();
        let killed = (step * 31) % 7 < 3;
        switched.set_killed(killed);
        let answer = switched.evaluate(&intent(), &state, now);
        if killed {
            assert_eq!(answer, rejected("kill switch active"));
            refused += 1;
            continue;
        }
        assert_eq!(answer, others.evaluate(&intent(), &state, now));
        if held < limit {
            assert_eq!(answer, RiskDecision::Approved);
            approved.push(now);
        } else {
            assert_eq!(answer, rejected("order rate exceeded"));
        }
    }
    assert!(refused > 100 && approved.len() > 20 && approved.len() < 300 - refused);
}
