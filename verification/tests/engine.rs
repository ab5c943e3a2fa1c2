use edgerunner::feeds::FeedStatusMap;
use edgerunner::{
    DislocationConfig, DislocationTaker, Engine, EngineConfig, EventEnvelope, MarketEvent,
    OrderIntentKind, PositionLifecycle, PositionStatus, Price, RiskConfig, Side, TradeAction,
};

fn engine() -> Engine<DislocationTaker> {
    Engine::new(
        DislocationTaker::new(DislocationConfig::default()),
        EngineConfig::default(),
    )
}

fn price(micros: i64) -> Price {
    Price::from_micros(micros).unwrap()
}

fn book(time: u64, bid: i64, ask: i64, venue_seq: u64) -> EventEnvelope {
    EventEnvelope::new(
        time,
        MarketEvent::Book {
            market: "market-a".to_owned(),
            bid: price(bid),
            bid_size: 100,
            ask: price(ask),
            ask_size: 100,
            venue_seq,
        },
    )
}

fn fair(time: u64, probability: i64, source_seq: u64, message: Option<&str>) -> EventEnvelope {
    EventEnvelope::new(
        time,
        MarketEvent::FairValue {
            market: "market-a".to_owned(),
            probability: price(probability),
            source_seq,
            message_id: message.map(|m| m.to_owned()),
            proof_ts: message.map(|_| 1_020),
        },
    )
}

#[test]
fn paper_fill_consumes_visible_depth_and_marks_inventory() {
    let mut engine = engine();
    engine.process(book(1_000_000, 540_000, 550_000, 1));
    let output = engine.process(fair(1_020_000, 610_000, 1, Some("message-1")));
    assert_eq!(output.len(), 1);
    assert!(output[0].fill.is_some());
    assert_eq!(engine.state.position, 25);
    assert_eq!(engine.state.ask_size, 75);
    assert!(engine.state.pnl_micros > 0);
}

#[test]
fn mean_reversion_exit_closes_position_and_records_realized_pnl() {
    let mut engine = engine();
    engine.process(book(1_000_000, 540_000, 550_000, 1));
    let entry = engine.process(fair(1_020_000, 620_000, 1, Some("message-1")));
    assert_eq!(entry[0].trade.as_ref().unwrap().action, TradeAction::Buy);
    assert_eq!(engine.position_lifecycle.status, PositionStatus::Open);

    let exit = engine.process(book(1_040_000, 610_000, 620_000, 2));
    let exit_trade = exit[0].trade.as_ref().unwrap();
    assert_eq!(exit_trade.action, TradeAction::Sell);
    assert_eq!(exit_trade.kind, OrderIntentKind::Exit);
    assert!(exit_trade.realized_pnl_micros > 0);
    assert_eq!(engine.state.position, 0);

    let lifecycle = engine
        .snapshot(true, false, FeedStatusMap::new())
        .position_lifecycle;
    assert_eq!(lifecycle.status, PositionStatus::Closed);
    assert_eq!(lifecycle.entry_price.unwrap().micros(), 550_000);
    assert_eq!(lifecycle.exit_price.unwrap().micros(), 610_000);
    assert_eq!(lifecycle.holding_time_ns, 20_000);
    assert_eq!(
        lifecycle.realized_pnl_micros,
        exit_trade.realized_pnl_micros
    );
    assert_eq!(lifecycle.realized_pnl_micros, engine.state.pnl_micros);
}

#[test]
fn scales_to_exact_effective_capacity_without_rejections() {
    let mut engine = engine();
    engine.process(book(1_000_000, 590_000, 600_000, 1));
    engine.process(fair(1_020_000, 680_000, 1, Some("message-1")));

    let mut final_entry_quantity = 0;
    for venue_seq in 2..=7 {
        let output = engine.process(book(
            1_020_000 + venue_seq * 20_000,
            590_000,
            600_000,
            venue_seq,
        ));
        final_entry_quantity = output[0].fill.as_ref().unwrap().quantity;
    }
    assert_eq!(engine.state.position, 166);
    assert_eq!(final_entry_quantity, 16);

    let at_capacity = engine.process(book(1_180_000, 590_000, 600_000, 8));
    assert_eq!(at_capacity[0].decision.action, "skipped");
    assert!(at_capacity[0].decision.reason.contains("capacity reached"));
    assert_eq!(
        at_capacity[0].decision.reason,
        "effective risk capacity reached at 166 contracts (notional)"
    );
    assert!(at_capacity[0].fill.is_none());
    assert_eq!(engine.rejected_orders, 0);

    let capacity = engine
        .snapshot(true, false, FeedStatusMap::new())
        .risk_capacity;
    assert_eq!(capacity.position_limit, 250);
    assert_eq!(capacity.effective_position_limit, 166);
    assert_eq!(capacity.remaining_contracts, 0);
    assert_eq!(capacity.limiting_gate, "notional");
}

#[test]
fn aggregates_multiple_entries_into_one_deterministic_cost_basis() {
    let mut engine = engine();
    engine.process(book(1_000_000, 540_000, 550_000, 1));
    engine.process(fair(1_020_000, 650_000, 1, Some("message-1")));
    engine.process(book(1_040_000, 550_000, 560_000, 2));
    assert_eq!(engine.state.position, 50);
    assert_eq!(
        engine.position_lifecycle.entry_price.unwrap().micros(),
        555_000
    );

    let exit = engine.process(book(1_060_000, 640_000, 650_000, 3));
    let exit_trade = exit[0].trade.as_ref().unwrap();
    assert_eq!(exit_trade.quantity, 50);
    assert!(exit_trade.realized_pnl_micros > 0);
    assert_eq!(engine.state.position, 0);
    assert_eq!(engine.position_lifecycle.status, PositionStatus::Closed);
    assert_eq!(
        engine.position_lifecycle.realized_pnl_micros,
        engine.state.pnl_micros
    );
}

#[test]
fn snapshot_projects_buy_and_sell_collateral_including_fees() {
    let cases = [
        (800_000, Side::Bid, 666_000, 16_650_000, 5_550),
        (200_000, Side::Ask, 644_000, 8_900_000, 5_725),
    ];
    for (fair_value, side, limit, collateral, fee) in cases {
        let mut engine = engine();
        engine.process(book(1_000_000, 644_000, 666_000, 1));
        engine.process(fair(1_020_000, fair_value, 1, None));

        let requirement = engine
            .snapshot(true, false, FeedStatusMap::new())
            .next_order_requirement
            .unwrap();
        assert_eq!(requirement.side, side);
        assert_eq!(requirement.quantity, 25);
        assert_eq!(requirement.price.micros(), limit);
        assert_eq!(requirement.collateral_micros, collateral);
        assert_eq!(requirement.fee_micros, fee);
        assert_eq!(requirement.required_funds_micros, collateral + fee);
        assert_eq!(requirement.decision_status, "submitted");
    }
}

#[test]
fn ignores_duplicate_and_out_of_order_market_data() {
    let mut engine = engine();
    for (sequence, probability) in [(2, 610_000), (2, 300_000), (1, 200_000)] {
        engine.process(fair(sequence * 1_000, probability, sequence, None));
    }
    assert_eq!(engine.state.source_seq, 2);
    assert_eq!(engine.state.fair_value.unwrap().micros(), 610_000);
    assert_eq!(engine.ignored_events, 2);
}

#[test]
fn fresh_snapshot_has_no_order_requirement_and_default_history() {
    let engine = engine();
    let snapshot = engine.snapshot(true, false, FeedStatusMap::new());
    assert!(snapshot.next_order_requirement.is_none());
    assert!(snapshot.trades.is_empty());
    assert!(snapshot.decisions.is_empty());
    assert_eq!(snapshot.position_lifecycle, PositionLifecycle::default());
    assert_eq!(snapshot.latency.samples, 0);
    assert_eq!(snapshot.latency.max_us, 0);
    assert_eq!(snapshot.risk_capacity.limiting_gate, "position");
    assert_eq!(snapshot.risk_capacity.remaining_contracts, 250);
    assert_eq!(snapshot.markets.len(), 1);
    assert!(snapshot.last_update.seconds > 1_700_000_000);
}

#[test]
fn entry_fill_has_exact_fee_cash_and_profit() {
    let mut engine = engine();
    engine.process(book(1_000_000, 540_000, 550_000, 1));
    let output = engine.process(fair(1_020_000, 620_000, 1, Some("message-1")));
    let fill = output[0].fill.as_ref().unwrap();
    // 550000 * 450000 / 10^6 = 247500; * 1000 / 10^6 = 247; * 25 = 6175
    assert_eq!(fill.fee_micros, 6_175);
    assert_eq!(fill.quantity, 25);
    assert_eq!(fill.acknowledged_time_ns, 3_020_000);
    assert_eq!(engine.state.cash_micros, -(550_000 * 25) - 6_175);
    assert_eq!(engine.state.fees_micros, 6_175);
    assert_eq!(
        engine.state.pnl_micros,
        620_000 * 25 - 550_000 * 25 - 6_175
    );
    let trade = output[0].trade.as_ref().unwrap();
    assert_eq!(trade.timestamp.seconds, 0);
    assert_eq!(trade.timestamp.nanos, 3_020_000);
    assert_eq!(trade.realized_pnl_micros, 0);
    assert_eq!(trade.edge_micros, 620_000 - 550_000 - 247 - 2_500);
    assert_eq!(output[0].decision.reason, "entry edge reached the 5% threshold");
    assert_eq!(output[0].decision.at.nanos, 1_020_000);
}

#[test]
fn exit_realizes_the_difference_less_all_fees() {
    let mut engine = engine();
    engine.process(book(1_000_000, 540_000, 550_000, 1));
    engine.process(fair(1_020_000, 620_000, 1, Some("message-1")));
    let exit = engine.process(book(1_040_000, 610_000, 620_000, 2));
    let trade = exit[0].trade.as_ref().unwrap();
    // entry fee 6175; exit: 610000 * 390000 / 10^6 = 237900; 237 * 25 = 5925
    assert_eq!(
        trade.realized_pnl_micros,
        (610_000 - 550_000) * 25 - 6_175 - 5_925
    );
    assert_eq!(engine.state.cash_micros, trade.realized_pnl_micros);
    assert_eq!(engine.state.fees_micros, 12_100);
}

#[test]
fn killed_engine_rejects_and_keeps_its_account() {
    let mut engine = engine();
    engine.set_killed(true);
    engine.process(book(1_000_000, 540_000, 550_000, 1));
    let output = engine.process(fair(1_020_000, 620_000, 1, Some("message-1")));
    assert_eq!(output[0].decision.action, "rejected");
    assert_eq!(output[0].decision.reason, "kill switch active");
    assert!(output[0].fill.is_none());
    assert!(output[0].trade.is_none());
    assert_eq!(engine.state.position, 0);
    assert_eq!(engine.state.cash_micros, 0);
    assert_eq!(engine.rejected_orders, 1);

    engine.set_killed(false);
    let output = engine.process(book(1_040_000, 540_000, 550_000, 2));
    assert_eq!(output[0].decision.action, "submitted");
    assert_eq!(engine.state.position, 25);
}

#[test]
fn suspended_market_rejects_orders() {
    let mut engine = engine();
    engine.process(EventEnvelope::new(
        900_000,
        MarketEvent::Score {
            market: "market-a".into(),
            phase: "H1".into(),
            home: 1,
            away: 0,
            danger: false,
            suspended: true,
        },
    ));
    engine.process(book(1_000_000, 540_000, 550_000, 1));
    let output = engine.process(fair(1_020_000, 620_000, 1, None));
    assert_eq!(output[0].decision.reason, "market safety circuit active");
}

#[test]
fn timers_and_feed_events_decide_nothing() {
    let mut engine = engine();
    assert!(engine
        .process(EventEnvelope::new(5, MarketEvent::Timer))
        .is_empty());
    assert!(engine
        .process(EventEnvelope::new(
            6,
            MarketEvent::Feed {
                feed: "txline".into(),
                status: edgerunner::FeedStatus::Live,
                sequence_gap: false,
            },
        ))
        .is_empty());
    assert_eq!(engine.processed_events, 2);
    assert_eq!(engine.ignored_events, 0);
}

#[test]
fn clipped_entry_says_how_far() {
    let mut engine = Engine::new(
        DislocationTaker::new(DislocationConfig::default()),
        EngineConfig {
            risk: RiskConfig {
                max_position: 10,
                ..RiskConfig::default()
            },
            ..EngineConfig::default()
        },
    );
    engine.process(book(1_000_000, 540_000, 550_000, 1));
    let output = engine.process(fair(1_020_000, 620_000, 1, None));
    assert_eq!(
        output[0].decision.reason,
        "entry edge reached the 5% threshold; clipped to 10 contracts by position capacity"
    );
    assert_eq!(output[0].fill.as_ref().unwrap().quantity, 10);
    assert_eq!(engine.state.position, 10);
}

#[test]
fn histories_stay_within_their_length() {
    let mut engine = Engine::new(
        DislocationTaker::new(DislocationConfig::default()),
        EngineConfig {
            decision_history: 3,
            ..EngineConfig::default()
        },
    );
    engine.process(fair(1_000_000, 680_000, 1, None));
    for venue_seq in 1..=6 {
        engine.process(book(1_020_000 + venue_seq, 590_000, 600_000, venue_seq));
    }
    assert_eq!(engine.decisions.len(), 3);
    assert_eq!(engine.fills.len(), 3);
    assert_eq!(engine.trades.len(), 3);
    assert_eq!(engine.state.position, 150);
}

#[test]
fn latency_is_recorded_for_every_decision() {
    let mut engine = engine();
    engine.process(book(1_000_000, 540_000, 550_000, 1));
    engine.process(fair(1_020_000, 620_000, 1, None));
    let latency = engine.latency_snapshot();
    assert_eq!(latency.samples, 2);
    assert!(latency.p50_us >= 1);
    assert!(latency.p50_us <= latency.p95_us);
    assert!(latency.p95_us <= latency.p99_us);
    assert!(latency.p99_us <= latency.max_us);
    assert!(engine.decisions[0].compute_latency_ns > 0);
}

#[test]
fn runs_and_decisions_have_identifiers_of_their_own() {
    let mut a = engine();
    let mut b = engine();
    assert_ne!(a.run_id, b.run_id);
    let first = a.process(book(1, 540_000, 550_000, 1));
    let second = b.process(book(1, 540_000, 550_000, 1));
    assert_ne!(first[0].decision.id, second[0].decision.id);
    assert_eq!(first[0].decision.reason, second[0].decision.reason);
}

#[test]
fn same_events_lead_to_the_same_orders_and_trades() {
    let events = vec![
        book(1_000_000, 540_000, 550_000, 1),
        fair(1_020_000, 650_000, 1, Some("message-1")),
        book(1_040_000, 550_000, 560_000, 2),
        book(1_060_000, 640_000, 650_000, 3),
    ];
    let mut a = engine();
    let mut b = engine();
    for event in &events {
        let x = a.process(event.clone());
        let y = b.process(event.clone());
        assert_eq!(x.len(), y.len());
        for (p, q) in x.iter().zip(y.iter()) {
            assert_eq!(p.decision.intent, q.decision.intent);
            assert_eq!(p.decision.action, q.decision.action);
            assert_eq!(p.fill, q.fill);
            assert_eq!(p.trade, q.trade);
        }
    }
    assert_eq!(a.state, b.state);
}

#[test]
fn short_positions_are_bought_back() {
    let mut engine = engine();
    engine.process(book(1_000_000, 540_000, 550_000, 1));
    let entry = engine.process(fair(1_020_000, 450_000, 1, None));
    assert_eq!(entry[0].trade.as_ref().unwrap().action, TradeAction::Sell);
    assert_eq!(engine.state.position, -25);
    let exit = engine.process(book(1_040_000, 440_000, 450_000, 2));
    let trade = exit[0].trade.as_ref().unwrap();
    assert_eq!(trade.action, TradeAction::Buy);
    // entry: 540000*460000/10^6=248400 -> 248 * 25 = 6200; exit: 450000*550000 -> 247 * 25 = 6175
    assert_eq!(
        trade.realized_pnl_micros,
        (540_000 - 450_000) * 25 - 6_200 - 6_175
    );
    assert_eq!(engine.state.position, 0);
    assert_eq!(engine.state.pnl_micros, trade.realized_pnl_micros);
}

#[test]
fn books_agree_over_a_long_run() {
    let mut engine = engine();
    let mut seed: u64 = 7;
    let mut next = |range: u64| {
        seed = seed.wrapping_mul(6_364_136_223_846_793_005).wrapping_add(1_442_695_040_888_963_407);
        (seed >> 33) % range
    };
    let mut realized = 0;
    let mut trades = 0;
    let mut flat_after_trading = 0;
    let (mut contracts, mut cost, mut fees) = (0, 0, 0);
    let mut life = 0;
    for tick in 1..3_000_u64 {
        let time = tick * 2_000_000_000;
        let mid = 400_000 + next(200_000) as i64;
        let fair_value = 400_000 + next(200_000) as i64;
        for event in [
            book(time, mid - 4_000, mid + 4_000, tick),
            fair(time + 1, fair_value, tick, None),
        ] {
            for output in engine.process(event) {
                if let Some(fill) = &output.fill {
                    let signed = match fill.side {
                        Side::Bid => fill.quantity as i64,
                        Side::Ask => -(fill.quantity as i64),
                    };
                    contracts += signed;
                    cost += signed * fill.price.micros();
                    fees += fill.fee_micros;
                    life -= signed * fill.price.micros() + fill.fee_micros;
                }
                if let Some(trade) = output.trade {
                    trades += 1;
                    realized += trade.realized_pnl_micros;
                    if trade.kind == OrderIntentKind::Entry {
                        assert_eq!(trade.realized_pnl_micros, 0);
                    }
                    if engine.position_lifecycle.status == PositionStatus::Closed {
                        assert_eq!(engine.position_lifecycle.realized_pnl_micros, life);
                        life = 0;
                    }
                }
            }
        }
        assert_eq!(engine.state.position, contracts);
        assert_eq!(engine.state.cash_micros, -cost - fees);
        assert_eq!(engine.state.fees_micros, fees);
        assert_eq!(
            engine.state.pnl_micros,
            engine.state.cash_micros + engine.state.position * fair_value
        );
        assert!(engine.state.position.abs() <= 250);
        if engine.state.position == 0 {
            assert_eq!(engine.state.cash_micros, realized);
            assert_eq!(engine.state.pnl_micros, realized);
            assert_eq!(engine.position_lifecycle.status, PositionStatus::Closed);
            flat_after_trading += usize::from(trades > 0);
        }
        assert!(engine.decisions.len() <= 100);
    }
    assert!(trades > 100);
    assert!(flat_after_trading > 10);

    engine.set_killed(true);
    let before = (engine.state.position, engine.state.cash_micros);
    for tick in 3_000..3_100_u64 {
        let time = tick * 2_000_000_000;
        engine.process(book(time, 400_000, 401_000, tick));
        for output in engine.process(fair(time + 1, 600_000, tick, None)) {
            assert!(output.fill.is_none());
        }
    }
    assert_eq!((engine.state.position, engine.state.cash_micros), before);
}
