use edgerunner::config::BackendConfig;
use edgerunner::encoding::{to_hex, write_order, write_trade};
use edgerunner::journal::{EventFault, JournalLine};
use edgerunner::mapping::ResolvedLiveFeed;
use edgerunner::replay::{replay, replay_with_limit, run_replay, ReplayError};
use edgerunner::runtime::{session_state, Readiness, ReplayAction, ReplayWorker, Runtime};
use edgerunner::session::{
    authorized, bounded_pause, feed_status_for, load_replay_events, probe_summary, proof_delay,
    replay_command, replay_gap, resolve_control_token, Backoff, Environment, FeedController,
    FeedMode, FeedSwitch, MappingStatus, Refusal, ReplayCommand, ReplayCommandRequest,
    ReplaySpeed, ReplayStatus, RunMode, StartAction,
};
use edgerunner::{
    DislocationConfig, DislocationTaker, Engine, EngineConfig, EventEnvelope, FeedStatus,
    JournalRecord, MarketDataSource, MarketEvent, MarketMapping, Price, TxLineMarketSelection,
};

fn mapping() -> MarketMapping {
    MarketMapping {
        fixture_id: 1,
        fixture_label: "recorded fixture".into(),
        fixture_start_time_ms: 1_000,
        market: "market-a".into(),
        pascal_symbol: "RECORDED.OUTCOME".into(),
        txline_selection: TxLineMarketSelection {
            super_odds_type: "match_result".into(),
            market_parameters: String::new(),
            market_period: "full_time".into(),
            price_index: 0,
            price_name: "home".into(),
        },
    }
}

fn mapping_line() -> JournalLine {
    JournalLine::Record(JournalRecord::Mapping {
        schema: 2,
        mapping: mapping(),
    })
}

fn book(time: u64, bid: i64, ask: i64, venue_seq: u64) -> EventEnvelope {
    EventEnvelope::new(
        time,
        MarketEvent::Book {
            market: "market-a".into(),
            bid: Price::from_micros(bid).unwrap(),
            bid_size: 100,
            ask: Price::from_micros(ask).unwrap(),
            ask_size: 100,
            venue_seq,
        },
    )
}

fn fair(time: u64, probability: i64, source_seq: u64) -> EventEnvelope {
    EventEnvelope::new(
        time,
        MarketEvent::FairValue {
            market: "market-a".into(),
            probability: Price::from_micros(probability).unwrap(),
            source_seq,
            message_id: Some("message-1".into()),
            proof_ts: Some(1_020),
        },
    )
}

fn line(source: MarketDataSource, event: EventEnvelope) -> JournalLine {
    JournalLine::Record(JournalRecord::Event {
        schema: 2,
        source,
        event,
    })
}

fn recording() -> Vec<JournalLine> {
    vec![
        mapping_line(),
        line(
            MarketDataSource::Pascal,
            book(1_000_000, 540_000, 550_000, 1),
        ),
        line(MarketDataSource::Txline, fair(1_020_000, 610_000, 1)),
    ]
}

fn engine() -> Engine<DislocationTaker> {
    Engine::new(
        DislocationTaker::new(DislocationConfig::default()),
        EngineConfig::default(),
    )
}

#[test]
fn repeated_replays_produce_identical_intent_checksums() {
    let lines = recording();
    let mut first = engine();
    let mut second = engine();
    let first_report = replay(&lines, &mut first).unwrap();
    let second_report = replay(&lines, &mut second).unwrap();
    assert_eq!(first_report.decisions, 1);
    assert_eq!(first_report.fills, 1);
    assert_eq!(
        first_report.decision_checksum,
        second_report.decision_checksum
    );
    assert_eq!(first_report.trade_checksum, second_report.trade_checksum);
    assert_eq!(first_report.trades, 1);
    assert_eq!(first_report.realized_pnl_micros, 0);
    assert_eq!(first_report.pnl_micros, second_report.pnl_micros);
    assert_eq!(first_report.events, 2);
    assert_eq!(first_report.txline_events, 1);
    assert_eq!(first_report.pascal_events, 1);
    assert_eq!(first_report.mappings, 1);
    assert_eq!(first_report.latency.samples, 2);
}

#[test]
fn checksums_are_digests_of_the_json_text() {
    let lines = recording();
    let mut first = engine();
    let report = replay(&lines, &mut first).unwrap();
    let intent = first.decisions[0].intent.clone();
    let mut text = b"null".to_vec();
    text.extend_from_slice(write_order(&intent).as_bytes());
    let digest = <sha2::Sha256 as sha2::Digest>::digest(&text);
    assert_eq!(report.decision_checksum, to_hex(&digest));
    assert_eq!(report.decision_checksum.len(), 64);
    let trade = write_trade(&first.trades[0]);
    let digest = <sha2::Sha256 as sha2::Digest>::digest(trade.as_bytes());
    assert_eq!(report.trade_checksum, to_hex(&digest));
}

#[test]
fn orders_and_trades_are_written_as_json() {
    let mut run = engine();
    let _ = replay(&recording(), &mut run).unwrap();
    let intent = run.decisions[0].intent.clone().unwrap();
    let id = uuid::Uuid::from_u128(intent.id).to_string();
    assert_eq!(
        write_order(&Some(intent)),
        format!(
            "{{\"id\":\"{id}\",\"market\":\"market-a\",\"kind\":\"entry\",\"side\":\"bid\",\
             \"limit_price\":550000,\"quantity\":25,\"expected_edge_micros\":57253,\
             \"created_time_ns\":1020000,\"source_message_id\":\"message-1\",\
             \"source_proof_ts\":1020}}"
        )
    );
    assert_eq!(write_order(&None), "null");
    assert_eq!(
        write_trade(&run.trades[0]),
        format!(
            "{{\"order_id\":\"{id}\",\"market\":\"market-a\",\"kind\":\"entry\",\"action\":\"buy\",\
             \"timestamp\":\"1970-01-01T00:00:00.003020Z\",\"price\":550000,\"edge_micros\":57253,\
             \"quantity\":25,\"realized_pnl_micros\":0}}"
        )
    );
    assert_eq!(to_hex(&[0, 15, 255]), "000fff");
}

#[test]
fn rejects_legacy_event_records_without_a_live_source() {
    let lines = vec![JournalLine::Unreadable];
    let mut run = engine();
    assert_eq!(
        replay(&lines, &mut run).err(),
        Some(ReplayError::Unreadable { line: 1 })
    );
    assert_eq!(run.processed_events, 0);
}

#[test]
fn replaying_a_live_run_repeats_it() {
    let config = BackendConfig::default();
    let mut live = runtime(0);
    let mut lines = vec![
        JournalLine::Record(live.reset(&config, FeedMode::Live)),
        mapping_line(),
    ];
    for event in recorded() {
        let processed = live.process_market_event(event, true).unwrap();
        lines.extend(processed.records.into_iter().map(JournalLine::Record));
    }
    let report = run_replay(&lines, &config, None).unwrap();
    let shown = live.snapshot();
    assert_eq!(report.events, 4);
    assert_eq!(report.events, shown.processed_events);
    assert_eq!(report.fills as usize, shown.fills.len());
    assert_eq!(report.trades as usize, shown.trades.len());
    assert_eq!(report.trades, 3);
    assert_eq!(report.pnl_micros, shown.markets[0].pnl_micros);
    assert_eq!(
        report.realized_pnl_micros,
        shown.position_lifecycle.realized_pnl_micros
    );
    let mut written: Vec<u8> = Vec::new();
    for trade in shown.trades.iter().rev() {
        written.extend_from_slice(write_trade(trade).as_bytes());
    }
    let digest = <sha2::Sha256 as sha2::Digest>::digest(&written);
    assert_eq!(report.trade_checksum, to_hex(&digest));
}

#[test]
fn replay_stops_at_what_is_wrong() {
    let mut run = engine();
    assert_eq!(replay(&vec![], &mut run).err(), Some(ReplayError::NoEvents));
    assert_eq!(
        replay(
            &vec![line(MarketDataSource::Pascal, book(1, 1, 2, 1))],
            &mut run
        )
        .err(),
        Some(ReplayError::EventBeforeMapping { line: 1 })
    );
    let mut incomplete = mapping();
    incomplete.pascal_symbol = " ".into();
    assert_eq!(
        replay(
            &vec![JournalLine::Record(JournalRecord::Mapping {
                schema: 2,
                mapping: incomplete
            })],
            &mut run
        )
        .err(),
        Some(ReplayError::InvalidMapping { line: 1 })
    );
    let only_books = vec![
        mapping_line(),
        line(MarketDataSource::Pascal, book(1, 1, 2, 1)),
    ];
    assert_eq!(
        replay(&only_books, &mut engine()).err(),
        Some(ReplayError::MissingFeed)
    );
    let cases = vec![
        (
            MarketDataSource::Pascal,
            fair(1, 1, 1),
            EventFault::NotABook,
        ),
        (
            MarketDataSource::Txline,
            book(1, 1, 2, 1),
            EventFault::NotAFairValue,
        ),
        (
            MarketDataSource::Txline,
            EventEnvelope::new(1, MarketEvent::Timer),
            EventFault::UnsupportedEvent,
        ),
        (
            MarketDataSource::Txline,
            EventEnvelope::new(
                1,
                MarketEvent::FairValue {
                    market: "market-a".into(),
                    probability: Price::one(),
                    source_seq: 1,
                    message_id: Some(" ".into()),
                    proof_ts: Some(1),
                },
            ),
            EventFault::MissingProvenance,
        ),
        (
            MarketDataSource::Pascal,
            EventEnvelope::new(
                1,
                MarketEvent::Book {
                    market: "other".into(),
                    bid: Price::zero(),
                    bid_size: 1,
                    ask: Price::one(),
                    ask_size: 1,
                    venue_seq: 1,
                },
            ),
            EventFault::OtherMarket,
        ),
    ];
    for (source, event, fault) in cases {
        let lines = vec![mapping_line(), line(source, event)];
        assert_eq!(
            replay(&lines, &mut engine()).err(),
            Some(ReplayError::InvalidEvent { line: 2, fault })
        );
    }
    assert_eq!(
        ReplayError::InvalidEvent {
            line: 2,
            fault: EventFault::NotABook
        }
        .message(),
        "journal line 2 is not a recorded TxLINE/Pascal event: Pascal source has a non-order-book event"
    );
    assert_eq!(
        ReplayError::MissingFeed.message(),
        "journal must contain both TxLINE fair-value and Pascal order-book events"
    );
}

#[test]
fn replay_limit_leaves_the_rest_unread() {
    let mut lines = recording();
    lines.push(JournalLine::Unreadable);
    let mut run = engine();
    let report = replay_with_limit(&lines, &mut run, Some(2)).unwrap();
    assert_eq!(report.events, 2);
    assert_eq!(
        replay_with_limit(&lines, &mut engine(), None).err(),
        Some(ReplayError::Unreadable { line: 4 })
    );
    assert_eq!(
        replay_with_limit(&lines, &mut engine(), Some(0)).err(),
        Some(ReplayError::MissingFeed)
    );
}

#[test]
fn replay_events_are_those_with_provenance() {
    let mut lines = recording();
    lines.push(line(MarketDataSource::Pascal, fair(1, 1, 1)));
    lines.push(line(
        MarketDataSource::Txline,
        EventEnvelope::new(
            1,
            MarketEvent::FairValue {
                market: "market-a".into(),
                probability: Price::one(),
                source_seq: 9,
                message_id: None,
                proof_ts: Some(1),
            },
        ),
    ));
    assert_eq!(load_replay_events(&lines).unwrap().len(), 2);
    lines.push(JournalLine::Unreadable);
    assert_eq!(load_replay_events(&lines).err(), Some(6));
}

#[test]
fn non_loopback_bind_requires_explicit_control_token() {
    assert!(resolve_control_token(false, None).is_none());
    assert_eq!(
        resolve_control_token(false, Some("secret".into())).unwrap(),
        "secret"
    );
    assert_eq!(resolve_control_token(true, None).unwrap(), "local-demo");
}

#[test]
fn source_statuses_do_not_present_inactive_feeds_as_live() {
    let inactive = feed_status_for(FeedMode::Inactive);
    let live = feed_status_for(FeedMode::Live);
    assert_eq!(inactive.len(), 2);
    assert_eq!(live.len(), 2);
    for index in 0..2 {
        assert_eq!(inactive.entry(index).1, FeedStatus::Disconnected);
        assert_eq!(live.entry(index).1, FeedStatus::Connecting);
    }
    assert_eq!(inactive.get("txline"), Some(FeedStatus::Disconnected));
    assert_eq!(live.get("pascal"), Some(FeedStatus::Connecting));
    assert_eq!(live.get("other"), None);
    assert!(!live.all_live());
}

#[test]
fn requests_need_the_control_token() {
    assert!(authorized(Some("local-demo"), "local-demo"));
    assert!(!authorized(Some("local"), "local-demo"));
    assert!(!authorized(None, "local-demo"));
}

#[test]
fn replay_speed_is_a_quarter_to_twenty_times() {
    for speed in [0.25_f64, 0.5, 1.0, 19.999, 20.0] {
        assert!(ReplaySpeed::from_bits(speed.to_bits()).is_some());
    }
    for speed in [
        0.0_f64,
        -0.0,
        0.2499,
        20.001,
        -1.0,
        f64::NAN,
        f64::INFINITY,
        f64::NEG_INFINITY,
    ] {
        assert!(ReplaySpeed::from_bits(speed.to_bits()).is_none());
    }
    assert_eq!(f64::from_bits(ReplaySpeed::normal().to_bits()), 1.0);
}

#[test]
fn replay_requests_are_refused_in_order() {
    let bad = ReplayCommandRequest::SetSpeed {
        speed_bits: 21.0_f64.to_bits(),
    };
    assert_eq!(
        replay_command(false, bad, RunMode::Live, false),
        Err(Refusal::TokenRejected)
    );
    assert_eq!(
        replay_command(true, bad, RunMode::Live, false),
        Err(Refusal::SpeedOutOfRange)
    );
    let play = ReplayCommandRequest::Play;
    assert_eq!(
        replay_command(true, play, RunMode::Live, false),
        Err(Refusal::NotReplaying)
    );
    assert_eq!(
        replay_command(true, play, RunMode::Replay, false),
        Err(Refusal::ReplayUnavailable)
    );
    assert_eq!(
        replay_command(true, play, RunMode::Replay, true),
        Ok(ReplayCommand::Play)
    );
    assert_eq!(
        replay_command(
            true,
            ReplayCommandRequest::Seek { event_index: 4 },
            RunMode::Replay,
            true
        ),
        Ok(ReplayCommand::Seek(4))
    );
    assert_eq!(Refusal::TokenRejected.status(), 401);
    assert_eq!(Refusal::SpeedOutOfRange.status(), 400);
    assert_eq!(Refusal::NotReplaying.status(), 409);
    assert_eq!(
        Refusal::SpeedOutOfRange.message(),
        "replay speed must be between 0.25x and 20x"
    );
}

fn live_feed() -> ResolvedLiveFeed {
    ResolvedLiveFeed {
        mapping: mapping(),
        event_label: "A vs B".into(),
        contract_label: "A win".into(),
        market_period: "Reg Time".into(),
        expected_event_start_time_ms: Some(5),
        txline_origin: "https://a.example".into(),
        api_token: "token".into(),
        pascal_ws: "wss://b.example/ws".into(),
    }
}

#[test]
fn feeds_switch_only_where_a_mapping_is_known() {
    let mut controller = FeedController::new(true);
    assert_eq!(
        controller.plan_feed_switch(FeedMode::Inactive),
        Ok(FeedSwitch::Keep)
    );
    assert_eq!(
        controller.plan_feed_switch(FeedMode::Live),
        Err(Refusal::StillDiscovering)
    );
    assert_eq!(
        FeedController::new(false).plan_feed_switch(FeedMode::Live),
        Err(Refusal::TokenMissing)
    );
    assert!(controller.wants_mapping());
    assert_eq!(
        controller.accept_mapping(live_feed()),
        StartAction::LiveFeeds
    );
    assert!(!controller.wants_mapping());
    assert_eq!(
        controller.plan_feed_switch(FeedMode::Live),
        Ok(FeedSwitch::Switch)
    );
    assert!(controller.feed_mode_state().live_available);
    assert_eq!(
        controller.begin_session(Environment::Mainnet, RunMode::Live),
        StartAction::Nothing
    );
    assert_eq!(
        controller.plan_feed_switch(FeedMode::Live),
        Err(Refusal::MainnetUnconfigured)
    );
    assert!(!controller.switched_state(FeedMode::Inactive).live_available);
    assert_eq!(
        controller.begin_session(Environment::Devnet, RunMode::Replay),
        StartAction::Replay
    );
    assert!(controller.replaying);
    controller.begin_feed_switch();
    assert!(!controller.replaying);
    assert_eq!(controller.run_mode, RunMode::Live);
    controller.finish_feed_switch(FeedMode::Live);
    assert_eq!(controller.mode, FeedMode::Live);
    assert_eq!(
        controller.begin_session(Environment::Devnet, RunMode::Live),
        StartAction::LiveFeeds
    );
    controller.live = None;
    assert_eq!(
        controller.plan_feed_switch(FeedMode::Live),
        Err(Refusal::FeedUnavailable)
    );
    let mut waiting = FeedController::new(true);
    waiting.environment = Environment::Mainnet;
    assert_eq!(waiting.accept_mapping(live_feed()), StartAction::Nothing);
    assert_eq!(waiting.discovery, MappingStatus::Ready);
}

#[test]
fn waits_double_up_to_their_limit() {
    let mut feed = Backoff::feed();
    let waits: Vec<u64> = (0..7).map(|_| feed.next()).collect();
    assert_eq!(waits, vec![1, 2, 4, 8, 16, 30, 30]);
    let mut discovery = Backoff::discovery();
    let waits: Vec<u64> = (0..5).map(|_| discovery.next()).collect();
    assert_eq!(waits, vec![5, 10, 20, 40, 60]);
    let proofs: Vec<Option<u64>> = (0..7).map(proof_delay).collect();
    assert_eq!(
        proofs,
        vec![
            Some(0),
            Some(15),
            Some(30),
            Some(60),
            Some(120),
            Some(240),
            None
        ]
    );
}

#[test]
fn pauses_are_bounded() {
    assert_eq!(replay_gap(None, 5), None);
    assert_eq!(replay_gap(Some(3), 5), Some(2));
    assert_eq!(replay_gap(Some(9), 5), Some(0));
    assert_eq!(bounded_pause(0), 20_000_000);
    assert_eq!(bounded_pause(30_000_000), 30_000_000);
    assert_eq!(bounded_pause(u64::MAX), 2_000_000_000);
}

#[test]
fn probes_are_summarised_in_order() {
    let summary = probe_summary(&vec![30, 10, 20, 50, 40]);
    assert_eq!(summary.p50_us, 30);
    assert_eq!(summary.min_us, 10);
    assert_eq!(summary.max_us, 50);
    assert_eq!(probe_summary(&vec![4, 2]).p50_us, 4);
}

fn runtime(total: usize) -> Runtime {
    Runtime::new(&BackendConfig::default(), total, "run.jsonl".into())
}

#[test]
fn service_is_ready_when_both_feeds_are_live() {
    let mut runtime = runtime(0);
    assert_eq!(runtime.readiness(), Readiness::Inactive);
    let record = runtime.reset(&BackendConfig::default(), FeedMode::Live);
    assert!(matches!(record, JournalRecord::Run { schema: 2, .. }));
    assert_eq!(runtime.readiness(), Readiness::FeedUnavailable);
    let first = runtime
        .process_market_event(book(1_000_000, 540_000, 550_000, 1), true)
        .unwrap();
    assert_eq!(first.records.len(), 2);
    assert!(matches!(
        first.records[0],
        JournalRecord::Event {
            source: MarketDataSource::Pascal,
            ..
        }
    ));
    assert_eq!(runtime.readiness(), Readiness::FeedUnavailable);
    let second = runtime
        .process_market_event(fair(1_020_000, 620_000, 1), false)
        .unwrap();
    assert_eq!(second.records.len(), 3);
    assert!(matches!(second.records[0], JournalRecord::Decision { .. }));
    assert!(matches!(second.records[1], JournalRecord::Fill { .. }));
    assert!(matches!(second.records[2], JournalRecord::Trade { .. }));
    assert_eq!(second.proofs.len(), 1);
    assert_eq!(second.proofs[0].message_id, "message-1");
    assert_eq!(second.proofs[0].proof_ts, 1_020);
    assert_eq!(runtime.readiness(), Readiness::Ready);
    assert_eq!(runtime.readiness().status(), 200);
    runtime.set_feed_status("txline", FeedStatus::Disconnected);
    assert_eq!(runtime.readiness().reason(), "feed unavailable");
    assert_eq!(runtime.readiness().status(), 503);
    runtime.set_killed(true);
    assert_eq!(runtime.readiness(), Readiness::Killed);
    assert!(runtime
        .process_market_event(EventEnvelope::new(1, MarketEvent::Timer), true)
        .is_none());
    assert_eq!(runtime.event_count(), 2);
}

#[test]
fn kill_switch_outlives_a_reset() {
    let mut runtime = runtime(0);
    runtime.set_killed(true);
    runtime.reset(&BackendConfig::default(), FeedMode::Live);
    assert!(runtime.snapshot().killed);
    runtime.process_market_event(book(1_000_000, 540_000, 550_000, 1), false);
    runtime.process_market_event(fair(1_020_000, 620_000, 1), false);
    let snapshot = runtime.snapshot();
    assert_eq!(snapshot.markets[0].position, 0);
    assert_eq!(snapshot.rejected_orders, 1);
    assert_eq!(snapshot.decisions[0].reason, "kill switch active");
}

#[test]
fn metrics_are_written_for_prometheus() {
    let mut runtime = runtime(0);
    runtime.process_market_event(book(1_000_000, 540_000, 550_000, 1), false);
    runtime.process_market_event(fair(1_020_000, 620_000, 1), false);
    let text = runtime.metrics();
    assert!(text.starts_with(
        "# TYPE edgerunner_events_total counter\nedgerunner_events_total 2\n\
         # TYPE edgerunner_orders_rejected_total counter\nedgerunner_orders_rejected_total 0\n\
         # TYPE edgerunner_events_ignored_total counter\nedgerunner_events_ignored_total 0\n\
         # TYPE edgerunner_decision_p99_microseconds gauge\nedgerunner_decision_p99_microseconds "
    ));
    assert!(text.ends_with(
        "# TYPE edgerunner_position_contracts gauge\nedgerunner_position_contracts 25\n\
         # TYPE edgerunner_pnl_micros gauge\nedgerunner_pnl_micros 1743825\n\
         # TYPE edgerunner_kill_switch gauge\nedgerunner_kill_switch 0\n"
    ));
}

fn recorded() -> Vec<EventEnvelope> {
    vec![
        book(1_000_000, 540_000, 550_000, 1),
        fair(1_020_000, 650_000, 1),
        book(1_040_000, 550_000, 560_000, 2),
        book(1_060_000, 640_000, 650_000, 3),
    ]
}

#[test]
fn seeking_is_replaying_from_the_start() {
    let config = BackendConfig::default();
    for target in 0..=6_usize {
        let mut seeker = runtime(4);
        let mut worker = ReplayWorker::new(recorded(), "run.jsonl".into());
        worker.start(&mut seeker);
        assert_eq!(seeker.replay_state().status, ReplayStatus::Paused);
        let record =
            worker.handle_replay_command(ReplayCommand::Seek(target), &mut seeker, &config);
        assert!(record.is_some());
        let mut steps = 0;
        while worker.next_action() == ReplayAction::Run {
            assert!(worker.step(&mut seeker).is_some());
            steps += 1;
        }
        assert_eq!(steps, target.min(4));
        assert_eq!(seeker.replay_state().event_index, target.min(4));
        assert_eq!(
            seeker.replay_state().status,
            if target >= 4 {
                ReplayStatus::Complete
            } else {
                ReplayStatus::Paused
            }
        );
        let mut direct = runtime(4);
        for event in recorded().into_iter().take(target) {
            direct.process_market_event(event, false);
        }
        let a = seeker.snapshot();
        let b = direct.snapshot();
        assert_eq!(a.markets[0].position, b.markets[0].position);
        assert_eq!(a.markets[0].cash_micros, b.markets[0].cash_micros);
        assert_eq!(a.markets[0].pnl_micros, b.markets[0].pnl_micros);
        assert_eq!(a.fills.len(), b.fills.len());
    }
}

#[test]
fn playing_runs_to_the_end_and_again() {
    let config = BackendConfig::default();
    let mut runtime = runtime(4);
    let mut worker = ReplayWorker::new(recorded(), "run.jsonl".into());
    assert_eq!(worker.next_action(), ReplayAction::Await);
    assert!(worker
        .handle_replay_command(ReplayCommand::Play, &mut runtime, &config)
        .is_none());
    assert_eq!(runtime.replay_state().status, ReplayStatus::Playing);
    assert_eq!(worker.next_action(), ReplayAction::Pause { gap_ns: None });
    worker.step(&mut runtime);
    assert_eq!(
        worker.next_action(),
        ReplayAction::Pause {
            gap_ns: Some(20_000)
        }
    );
    let speed = ReplaySpeed::from_bits(2.0_f64.to_bits()).unwrap();
    worker.handle_replay_command(ReplayCommand::SetSpeed(speed), &mut runtime, &config);
    assert_eq!(runtime.replay_state().status, ReplayStatus::Playing);
    assert_eq!(runtime.replay_state().speed, speed);
    worker.handle_replay_command(ReplayCommand::Pause, &mut runtime, &config);
    assert_eq!(worker.next_action(), ReplayAction::Await);
    assert_eq!(runtime.replay_state().event_index, 1);
    worker.handle_replay_command(ReplayCommand::Play, &mut runtime, &config);
    while let ReplayAction::Pause { .. } = worker.next_action() {
        worker.step(&mut runtime);
    }
    assert_eq!(runtime.replay_state().status, ReplayStatus::Complete);
    assert_eq!(runtime.event_count(), 4);
    assert!(worker
        .handle_replay_command(ReplayCommand::Play, &mut runtime, &config)
        .is_some());
    assert_eq!(runtime.event_count(), 0);
    assert_eq!(runtime.replay_state().event_index, 0);
    worker.step(&mut runtime);
    assert!(worker
        .handle_replay_command(ReplayCommand::Reset, &mut runtime, &config)
        .is_some());
    assert_eq!(runtime.replay_state().status, ReplayStatus::Paused);
    assert_eq!(runtime.event_count(), 0);
}

#[test]
fn empty_recording_is_unavailable() {
    let config = BackendConfig::default();
    let mut runtime = runtime(0);
    let mut worker = ReplayWorker::new(vec![], "run.jsonl".into());
    worker.start(&mut runtime);
    assert_eq!(runtime.replay_state().status, ReplayStatus::Unavailable);
    worker.handle_replay_command(ReplayCommand::Play, &mut runtime, &config);
    assert_eq!(runtime.replay_state().status, ReplayStatus::Unavailable);
    assert_eq!(worker.next_action(), ReplayAction::Await);
    worker.handle_replay_command(ReplayCommand::Seek(3), &mut runtime, &config);
    assert_eq!(runtime.replay_state().status, ReplayStatus::Complete);
    worker.finish(&mut runtime);
    assert_eq!(worker.next_action(), ReplayAction::Await);
}

#[test]
fn session_shows_the_market_of_the_engine() {
    let mut controller = FeedController::new(true);
    let mut runtime = runtime(4);
    let state = session_state(&controller, &runtime);
    assert!(state.market.is_none());
    assert!(!state.live_available);
    assert_eq!(state.mapping_status, MappingStatus::Discovering);
    controller.accept_mapping(live_feed());
    let state = session_state(&controller, &runtime);
    assert!(state.live_available);
    assert_eq!(state.market.as_ref().unwrap().event, "A vs B");
    assert_eq!(state.replay.total_events, 4);
    runtime.process_market_event(book(1, 1, 2, 1), false);
    assert!(session_state(&controller, &runtime).market.is_some());
    controller.live.as_mut().unwrap().mapping.market = "other".into();
    assert!(session_state(&controller, &runtime).market.is_none());
    controller.environment = Environment::Mainnet;
    let state = session_state(&controller, &runtime);
    assert!(!state.live_available);
    assert_eq!(state.mapping_status, MappingStatus::Unavailable);
}

#[test]
fn controls_change_only_the_schedule() {
    let config = BackendConfig::default();
    let mut direct = runtime(4);
    for event in recorded() {
        direct.process_market_event(event, false);
    }
    let mut runtime = runtime(4);
    let mut worker = ReplayWorker::new(recorded(), "run.jsonl".into());
    worker.start(&mut runtime);
    let speed = ReplaySpeed::from_bits(20.0_f64.to_bits()).unwrap();
    for command in [
        ReplayCommand::Play,
        ReplayCommand::SetSpeed(speed),
        ReplayCommand::Pause,
        ReplayCommand::Play,
    ] {
        worker.handle_replay_command(command, &mut runtime, &config);
        if let ReplayAction::Pause { .. } = worker.next_action() {
            worker.step(&mut runtime);
        }
    }
    while let ReplayAction::Pause { .. } = worker.next_action() {
        worker.step(&mut runtime);
    }
    let shown = runtime.snapshot();
    let expected = direct.snapshot();
    assert_eq!(shown.processed_events, 4);
    assert_eq!(shown.markets, expected.markets);
    assert_eq!(shown.fills, expected.fills);
    assert_eq!(shown.trades, expected.trades);
    assert_eq!(shown.position_lifecycle, expected.position_lifecycle);
}
