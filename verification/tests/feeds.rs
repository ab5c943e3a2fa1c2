use edgerunner::json::{find_key, parse_json, JsonValue};
use edgerunner::mapping::{
    canonical_number, extract_numbers, fixture_candidates, market_matches_fixture, market_parameters_match,
    market_period_matches, matching_markets, select_outcome, DiscoveryConfig, DiscoveryError,
    EnvironmentValues,
};
use edgerunner::pascal::{
    apply_levels, parse_market, read_base_url, read_markets, subscription_message, BookStep,
    PascalBook, PascalBookAdapter, PascalConfig, PascalFault, PascalMarket, PriceLevels,
};
use edgerunner::text::{from_chars, to_chars};
use edgerunner::txline::{
    address_at, extract_probability, find_sse_separator, matches_fixture, matches_selection,
    odds_snapshot_url, parse_fixture, percentage_to_probability, read_fixtures, read_odds_lines,
    sse_data, SseBuffer, TxLineAdapter, TxLineConfig, TxLineFault, TxLineFixture, TxLineOddsLine,
};
use edgerunner::{MarketEvent, Price, TxLineMarketSelection};

fn json(text: &str) -> JsonValue {
    parse_json(text).unwrap()
}

#[test]
fn extracts_nested_stable_price() {
    let value = json(r#"{"data": {"StablePrice": "0.617500"}}"#);
    assert_eq!(extract_probability(&value, None).unwrap().micros(), 617_500);
}

#[test]
fn keeps_only_the_configured_fixture() {
    let value = json(r#"{"data": {"FixtureId": 17588320}}"#);
    assert!(matches_fixture(&value, 17_588_320));
    assert!(!matches_fixture(&value, 17_588_321));
}

#[test]
fn converts_txline_pct_to_a_probability_and_selects_the_recorded_price_index() {
    let selection = TxLineMarketSelection {
        super_odds_type: "match_result".into(),
        market_parameters: String::new(),
        market_period: "full_time".into(),
        price_index: 1,
        price_name: "draw".into(),
    };
    let value = json(
        r#"{
            "SuperOddsType": "match_result",
            "MarketPeriod": "full_time",
            "Pct": ["51.000", "24.500", "24.500"]
        }"#,
    );
    assert!(matches_selection(&value, &selection));
    assert_eq!(
        extract_probability(&value, Some(&selection))
            .unwrap()
            .micros(),
        245_000
    );
}

#[test]
fn rejects_pct_values_outside_the_probability_range() {
    assert_eq!(percentage_to_probability("100.000").unwrap(), Price::one());
    assert!(percentage_to_probability("100.001").is_none());
    assert!(percentage_to_probability("0.12345").is_none());
}

#[test]
fn percentages_are_read_without_rounding() {
    assert_eq!(percentage_to_probability("29.789").unwrap().micros(), 297_890);
    assert_eq!(percentage_to_probability(" 7 ").unwrap().micros(), 70_000);
    assert_eq!(percentage_to_probability("0.0001").unwrap().micros(), 1);
    assert!(percentage_to_probability("").is_none());
    assert!(percentage_to_probability(".5").is_none());
    assert!(percentage_to_probability("-1").is_none());
    assert!(percentage_to_probability("99999999999999999999999").is_none());
}

fn adapter() -> TxLineAdapter {
    TxLineAdapter::new(TxLineConfig {
        origin: "https://txline-dev.txodds.com".into(),
        api_token: "test-token".into(),
        market: "fixture.market".into(),
        fixture_id: 42,
        selection: TxLineMarketSelection {
            super_odds_type: "1X2_PARTICIPANT_RESULT".into(),
            market_parameters: String::new(),
            market_period: String::new(),
            price_index: 1,
            price_name: "draw".into(),
        },
    })
}

const PAYLOAD: &str = r#"{
    "FixtureId": 42,
    "MessageId": "message-1",
    "Ts": 1784022342409,
    "SuperOddsType": "1X2_PARTICIPANT_RESULT",
    "Pct": ["40.112", "29.789", "30.093"]
}"#;

#[test]
fn preserves_txline_message_provenance_in_a_fair_value_event() {
    let event = adapter().fair_value_event(&json(PAYLOAD), 5).unwrap();
    assert_eq!(event.received_time_ns, 5);
    assert_eq!(event.source_time_ns, Some(1_784_022_342_409_000_000));
    match event.event {
        MarketEvent::FairValue {
            probability,
            source_seq,
            message_id,
            proof_ts,
            ..
        } => {
            assert_eq!(probability.micros(), 297_890);
            assert_eq!(source_seq, 1_784_022_342_409);
            assert_eq!(message_id.as_deref(), Some("message-1"));
            assert_eq!(proof_ts, Some(1_784_022_342_409));
        }
        _ => panic!("expected TxLINE fair-value event"),
    }
}

#[test]
fn fair_values_need_message_time_and_selection() {
    let adapter = adapter();
    for text in [
        r#"{"FixtureId": 42, "MessageId": " ", "Ts": 1, "Pct": ["1","2","3"]}"#,
        r#"{"FixtureId": 42, "MessageId": "m", "Ts": -1, "Pct": ["1","2","3"]}"#,
        r#"{"FixtureId": 42, "MessageId": "m", "Pct": ["1","2","3"]}"#,
        r#"{"FixtureId": 42, "MessageId": "m", "Ts": 1}"#,
    ] {
        assert!(adapter.fair_value_event(&json(text), 5).is_none());
    }
    assert!(adapter.payload_event(&json(PAYLOAD), 5).is_some());
    assert!(adapter
        .payload_event(&json(&PAYLOAD.replace("42,", "43,")), 5)
        .is_none());
    assert!(adapter
        .payload_event(&json(&PAYLOAD.replace("1X2_PART", "1X3_PART")), 5)
        .is_none());
    let huge = PAYLOAD.replace("1784022342409", "9223372036854775807");
    assert_eq!(
        adapter.payload_event(&json(&huge), 5).unwrap().source_time_ns,
        None
    );
}

#[test]
fn frames_lf_and_crlf_sse_blocks_without_decoding_chunks() {
    assert_eq!(find_sse_separator(b"data: one\n\ndata: two"), Some((9, 2)));
    assert_eq!(
        find_sse_separator(b"data: one\r\n\r\ndata: two"),
        Some((9, 4))
    );
    assert_eq!(find_sse_separator("data: caf\u{e9}".as_bytes()), None);
}

#[test]
fn stream_blocks_do_not_depend_on_the_chunks() {
    let stream = b"data: one\n\nevent: x\r\ndata: two\r\ndata:three\r\n\r\n\n\nrest";
    let mut whole = SseBuffer::new();
    whole.extend(stream);
    let mut expected = Vec::new();
    while let Some(block) = whole.next_block() {
        expected.push(block);
    }
    assert_eq!(expected.len(), 3);
    for size in 1..stream.len() {
        let mut buffer = SseBuffer::new();
        let mut blocks = Vec::new();
        for chunk in stream.chunks(size) {
            buffer.extend(chunk);
            while let Some(block) = buffer.next_block() {
                blocks.push(block);
            }
        }
        assert_eq!(blocks, expected);
    }
}

#[test]
fn stream_data_joins_the_data_lines() {
    assert_eq!(sse_data("event: x\r\ndata: two\r\ndata:three"), "two\nthree");
    assert_eq!(sse_data(": comment"), "");
    assert_eq!(sse_data("data:\ndata: {}"), "\n{}");
    assert_eq!(sse_data(""), "");
}

#[test]
fn stream_blocks_become_events() {
    let adapter = adapter();
    let line = PAYLOAD.replace('\n', " ");
    let block = format!("event: odds\ndata: {line}");
    assert!(adapter.block_event(block.as_bytes(), 5).unwrap().is_some());
    assert!(adapter.block_event(b": ping", 5).unwrap().is_none());
    assert!(matches!(
        adapter.block_event(b"data: {", 5),
        Err(TxLineFault::NotJson)
    ));
    assert!(matches!(
        adapter.block_event(&[0xff, 0xfe], 5),
        Err(TxLineFault::NotUtf8)
    ));
    assert!(adapter
        .block_event(b"data: {\"FixtureId\": 1}", 5)
        .unwrap()
        .is_none());
}

#[test]
fn snapshots_give_the_first_selected_line() {
    let adapter = adapter();
    let text = format!("[{{\"FixtureId\": 7}}, {PAYLOAD}]");
    let event = adapter.snapshot_event(&text, 9).unwrap().unwrap();
    assert_eq!(event.received_time_ns, 9);
    assert!(adapter.snapshot_event("[]", 9).unwrap().is_none());
    assert!(matches!(
        adapter.snapshot_event("{}", 9),
        Err(TxLineFault::NotAnArray)
    ));
    assert!(matches!(
        adapter.snapshot_event("[", 9),
        Err(TxLineFault::NotJson)
    ));
}

#[test]
fn fixtures_and_odds_lines_are_read_from_snapshots() {
    let fixtures = read_fixtures(
        r#"[{"FixtureId": "42", "Participant1": "France", "Participant2": "Spain",
             "Participant1IsHome": false, "StartTime": 1000000, "GameState": 1},
            {"FixtureId": 43}]"#,
    )
    .unwrap();
    assert_eq!(fixtures.len(), 1);
    assert_eq!(fixtures[0].fixture_id, 42);
    assert!(!fixtures[0].participant_1_is_home);
    assert_eq!(fixtures[0].start_time_ms, 1_000_000);
    assert_eq!(fixtures[0].game_state, Some(1));
    assert!(parse_fixture(&json("{}")).is_none());
    let home = parse_fixture(&json(
        r#"{"fixtureId": 1, "participant1": "A", "participant2": "B", "startTime": 2}"#,
    ))
    .unwrap();
    assert!(home.participant_1_is_home);
    assert_eq!(home.game_state, None);

    let lines = read_odds_lines(
        r#"[{"SuperOddsType": "match_result", "PriceNames": ["Home", 3, "Away"]},
            {"SuperOddsType": "empty", "PriceNames": []}]"#,
    )
    .unwrap();
    assert_eq!(lines.len(), 1);
    assert_eq!(lines[0].price_names, vec!["Home", "Away"]);
    assert_eq!(lines[0].market_period, "");
    assert!(matches!(read_fixtures("{}"), Err(TxLineFault::NotAnArray)));
    assert!(matches!(read_fixtures("nope"), Err(TxLineFault::NotJson)));
    assert!(matches!(read_odds_lines("1"), Err(TxLineFault::NotAnArray)));
    assert!(matches!(read_odds_lines(""), Err(TxLineFault::NotJson)));
}

#[test]
fn addresses_have_one_slash() {
    assert_eq!(
        address_at("https://a.example//", "/api/odds/stream"),
        "https://a.example/api/odds/stream"
    );
    assert_eq!(
        odds_snapshot_url("https://a.example", 42),
        "https://a.example/api/odds/snapshot/42"
    );
}

#[test]
fn json_fields_are_found_at_any_depth() {
    let value = json(r#"{"a": [{"b": 1}, {"c": {"key": "deep"}}], "z": {"key": "late"}}"#);
    let hit = find_key(&value, "key").unwrap();
    assert_eq!(hit.as_str().unwrap(), "deep");
    let own = json(r#"{"a": {"key": 1}, "key": 18446744073709551615}"#);
    assert_eq!(find_key(&own, "key").unwrap().unsigned(), Some(u64::MAX));
    assert_eq!(find_key(&own, "key").unwrap().signed(), None);
    assert!(find_key(&own, "missing").is_none());
    assert_eq!(json("1.5").scalar().unwrap(), "1.5");
    assert_eq!(json("-3").signed(), Some(-3));
    assert!(parse_json("{").is_none());
    assert!(json("true").scalar().is_none());
}

#[test]
fn applies_and_removes_pascal_l2_levels() {
    let mut book = PriceLevels::new();
    apply_levels(&mut book, Some(&json(r#"[["0.540000", "15"]]"#)));
    assert_eq!(book.first_key_value().unwrap().0.micros(), 540_000);
    assert_eq!(book.first_key_value().unwrap().1, 15);
    apply_levels(&mut book, Some(&json(r#"[["0.540000", "0"]]"#)));
    assert!(book.is_empty());
}

#[test]
fn malformed_levels_are_passed_over() {
    let mut book = PriceLevels::new();
    apply_levels(
        &mut book,
        Some(&json(
            r#"[["0.5", "1"], ["0.6"], [0.7, "1"], ["2", "1"], ["0.4", "-1"], 3, ["0.3", "9"]]"#,
        )),
    );
    assert_eq!(book.last_key_value().unwrap().0.micros(), 500_000);
    assert_eq!(book.first_key_value().unwrap().0.micros(), 300_000);
    assert_eq!(book.first_key_value().unwrap().1, 9);
    apply_levels(&mut book, None);
    apply_levels(&mut book, Some(&json("{}")));
    assert_eq!(book.last_key_value().unwrap().1, 1);
}

#[test]
fn uses_the_current_public_book_subscription_shape() {
    let text = subscription_message("MATCH.OUTCOME");
    let message = json(&text);
    assert_eq!(message.get("type").unwrap().as_str().unwrap(), "subscribe");
    let channels = message.get("channels").unwrap().as_array().unwrap();
    assert_eq!(channels[0].get("channel").unwrap().as_str().unwrap(), "book");
    assert_eq!(
        channels[0].get("symbol").unwrap().as_str().unwrap(),
        "MATCH.OUTCOME"
    );
    let quoted = json(&subscription_message("a\"b\\c\n"));
    let channels = quoted.get("channels").unwrap().as_array().unwrap();
    assert_eq!(
        channels[0].get("symbol").unwrap().as_str().unwrap(),
        "a\"b\\c\n"
    );
}

#[test]
fn derives_the_public_read_api_from_the_websocket_url() {
    assert_eq!(
        read_base_url("wss://data.pascal.trade/ws").unwrap(),
        "https://data.pascal.trade"
    );
}

#[test]
fn refuses_addresses_that_are_no_websockets() {
    assert_eq!(read_base_url("ws://host:1/x/y").unwrap(), "http://host:1");
    assert_eq!(
        read_base_url("https://data.pascal.trade"),
        Err(PascalFault::NotAWebSocket)
    );
    assert_eq!(read_base_url("wss:///ws"), Err(PascalFault::MissingHost));
    assert_eq!(
        PascalFault::MissingHost.message(),
        "Pascal websocket URL is missing a host"
    );
}

#[test]
fn parses_public_market_metadata() {
    let market = parse_market(&json(
        r#"{
            "symbol": "MATCH.HOME",
            "display_attributes": {
                "event_description": "Home vs Away",
                "market_description": "Home win",
                "game_page": {"section_description": "Moneyline - Reg Time"},
                "expected_event_start_time_ms": "1784055600000",
                "tags": ["Sports"]
            }
        }"#,
    ))
    .unwrap();
    assert_eq!(market.symbol, "MATCH.HOME");
    assert_eq!(market.market_period, "Moneyline - Reg Time");
    assert_eq!(market.expected_event_start_time_ms, Some(1_784_055_600_000));
    assert_eq!(market.tags, vec!["Sports"]);
}

#[test]
fn catalogue_lists_the_markets_it_names() {
    let markets = read_markets(
        r#"{"data": [{"symbol": "A", "display_attributes": {"event_description": "x"}},
                     {"symbol": "B"}]}"#,
    )
    .unwrap();
    assert_eq!(markets.len(), 1);
    assert_eq!(markets[0].symbol, "A");
    assert_eq!(markets[0].market_description, "");
    assert!(matches!(
        read_markets("{}"),
        Err(PascalFault::MissingMarkets)
    ));
    assert!(matches!(read_markets("{"), Err(PascalFault::NotJson)));
}

fn book_adapter() -> PascalBookAdapter {
    PascalBookAdapter::new(PascalConfig {
        ws_url: "wss://data.pascal.trade/ws".into(),
        symbol: "S".into(),
        market: "m".into(),
    })
}

#[test]
fn book_messages_become_the_top_of_the_book() {
    let adapter = book_adapter();
    let mut book = PascalBook::new();
    let step = adapter
        .on_message(
            &mut book,
            r#"{"type":"snapshot","channel":"book","symbol":"S","seq":"7",
                "data":{"bids":[["0.5","3"],["0.51","4"]],"asks":[["0.6","1"],["0.55","2"]]}}"#,
            11,
        )
        .unwrap();
    match step {
        BookStep::Event(event) => {
            assert_eq!(event.received_time_ns, 11);
            match event.event {
                MarketEvent::Book { market, bid, bid_size, ask, ask_size, venue_seq } => {
                    assert_eq!(market, "m");
                    assert_eq!((bid.micros(), bid_size), (510_000, 4));
                    assert_eq!((ask.micros(), ask_size), (550_000, 2));
                    assert_eq!(venue_seq, 7);
                }
                _ => panic!("expected a book"),
            }
        }
        _ => panic!("expected an event"),
    }
    assert!(matches!(
        adapter.on_message(
            &mut book,
            r#"{"type":"update","channel":"book","symbol":"S","data":{}}"#,
            12
        ),
        Ok(BookStep::Dropped)
    ));
    assert!(matches!(
        adapter.on_message(
            &mut book,
            r#"{"type":"snapshot","channel":"book","symbol":"S","seq":8,"data":{"bids":[["0.2","1"]]}}"#,
            13
        ),
        Ok(BookStep::Ignored)
    ));
    assert!(book.asks.is_empty());
    assert_eq!(book.bids.last_key_value().unwrap().0.micros(), 200_000);
}

#[test]
fn other_messages_are_ignored_or_faults() {
    let adapter = book_adapter();
    let mut book = PascalBook::new();
    for text in [
        r#"{"channel":"trades","symbol":"S"}"#,
        r#"{"channel":"book","symbol":"T","data":{}}"#,
        "[]",
    ] {
        assert!(matches!(
            adapter.on_message(&mut book, text, 1),
            Ok(BookStep::Ignored)
        ));
    }
    match adapter.on_message(
        &mut book,
        r#"{"type":"error","data":{"message":"no such symbol"}}"#,
        1,
    ) {
        Err(fault) => assert_eq!(
            fault.message(),
            "Pascal subscription failed: no such symbol"
        ),
        Ok(_) => panic!("expected a fault"),
    }
    match adapter.on_message(&mut book, r#"{"type":"error"}"#, 1) {
        Err(fault) => assert_eq!(
            fault.message(),
            "Pascal subscription failed: unknown Pascal subscription error"
        ),
        Ok(_) => panic!("expected a fault"),
    }
    assert!(matches!(
        adapter.on_message(&mut book, r#"{"channel":"book","symbol":"S"}"#, 1),
        Err(PascalFault::MissingData)
    ));
    assert!(matches!(
        adapter.on_message(&mut book, "nope", 1),
        Err(PascalFault::NotJson)
    ));
    assert!(adapter.subscription().contains("\"symbol\":\"S\""));
}

fn fixture() -> TxLineFixture {
    TxLineFixture {
        fixture_id: 42,
        participant_1: "France".into(),
        participant_2: "Spain".into(),
        participant_1_is_home: true,
        start_time_ms: 1_000_000,
        game_state: Some(1),
    }
}

#[test]
fn matches_a_pascal_event_using_both_participants_and_time() {
    let market = PascalMarket {
        symbol: "FRAESP.FRANCE".into(),
        event_description: "France vs Spain".into(),
        market_description: "France win".into(),
        market_period: "Moneyline - Reg Time".into(),
        expected_event_start_time_ms: Some(1_100_000),
        tags: vec!["Sports".into()],
    };
    assert!(market_matches_fixture(
        &market, "france", "spain", 1_000_000
    ));
}

#[test]
fn selects_the_txline_home_outcome_for_the_matching_pascal_market() {
    let market = PascalMarket {
        symbol: "FRAESP.FRANCE".into(),
        event_description: "France vs Spain".into(),
        market_description: "France win".into(),
        market_period: "Moneyline - Reg Time".into(),
        expected_event_start_time_ms: Some(1_000_000),
        tags: vec!["Sports".into()],
    };
    let lines = vec![TxLineOddsLine {
        super_odds_type: "match_result".into(),
        market_parameters: String::new(),
        market_period: "full_time".into(),
        price_names: vec!["Home".into(), "Draw".into(), "Away".into()],
    }];
    let selection = select_outcome(&fixture(), &market, &lines).unwrap();
    assert_eq!(selection.price_index, 0);
    assert_eq!(selection.price_name, "Home");
}

#[test]
fn pascal_symbol_override_skips_event_name_matching() {
    let market = PascalMarket {
        symbol: "MANUAL.MARKET".into(),
        event_description: "Different event".into(),
        market_description: "France win".into(),
        market_period: "Moneyline - Reg Time".into(),
        expected_event_start_time_ms: None,
        tags: vec![],
    };
    let markets = vec![market];
    let matches = matching_markets(&fixture(), &markets, &Some("MANUAL.MARKET".into()));
    assert_eq!(matches.len(), 1);
    assert!(matching_markets(&fixture(), &markets, &None).is_empty());
}

#[test]
fn refuses_to_map_a_first_half_txline_price_to_a_regulation_time_market() {
    let market = PascalMarket {
        symbol: "FRAESP.DRAW".into(),
        event_description: "France vs Spain".into(),
        market_description: "Draw".into(),
        market_period: "Moneyline - Reg Time".into(),
        expected_event_start_time_ms: Some(1_000_000),
        tags: vec![],
    };
    assert!(!market_period_matches("half=1", &market));
    assert!(market_period_matches("", &market));
}

#[test]
fn requires_total_line_parameters_to_match_the_pascal_market() {
    let market = PascalMarket {
        symbol: "FRAESP.TOTAL".into(),
        event_description: "France vs Spain".into(),
        market_description: "Total Over 1.5".into(),
        market_period: "Totals - Reg Time".into(),
        expected_event_start_time_ms: Some(1_000_000),
        tags: vec![],
    };
    assert!(market_parameters_match("line=1.50", &market));
    assert!(!market_parameters_match("line=3", &market));
    assert!(!market_parameters_match("other=value", &market));
    assert_eq!(extract_numbers("1st half total 1.5"), vec!["1.5"]);
}

#[test]
fn resolves_participant_labels_using_the_fixture_participants() {
    let market = PascalMarket {
        symbol: "FRAESP.HOME".into(),
        event_description: "France vs Spain".into(),
        market_description: "France to win".into(),
        market_period: "Moneyline - Reg Time".into(),
        expected_event_start_time_ms: Some(1_000_000),
        tags: vec![],
    };
    let lines = vec![TxLineOddsLine {
        super_odds_type: "1X2_PARTICIPANT_RESULT".into(),
        market_parameters: String::new(),
        market_period: "reg_time".into(),
        price_names: vec!["part1".into(), "draw".into(), "part2".into()],
    }];
    let selection = select_outcome(&fixture(), &market, &lines).unwrap();
    assert_eq!(selection.price_name, "part1");
}

#[test]
fn numbers_are_found_in_their_shortest_form() {
    assert_eq!(
        extract_numbers("-0.0 (007.50), -2.25; 3- 4a .5 6."),
        vec!["0", "7.5", "-2.25", "3", "6"]
    );
    let market = PascalMarket {
        symbol: "S".into(),
        event_description: String::new(),
        market_description: "Handicap -1.50".into(),
        market_period: String::new(),
        expected_event_start_time_ms: None,
        tags: vec![],
    };
    assert!(market_parameters_match(" side=1 ; LINE = -1.5 ", &market));
    assert!(market_parameters_match("line=x&line=+-1.5", &market));
    assert!(!market_parameters_match("line=1.5", &market));
    assert!(market_parameters_match("  ", &market));
}

#[test]
fn periods_of_halves_have_to_agree() {
    let mut market = PascalMarket {
        symbol: "S".into(),
        event_description: String::new(),
        market_description: "Draw".into(),
        market_period: "1st Half".into(),
        expected_event_start_time_ms: None,
        tags: vec![],
    };
    assert!(market_period_matches("half=1", &market));
    assert!(!market_period_matches("half=2", &market));
    assert!(!market_period_matches("", &market));
    assert!(!market_period_matches("full_time", &market));
    market.market_period = "Second Half".into();
    assert!(market_period_matches("half2", &market));
    market.market_period = "Overtime".into();
    assert!(market_period_matches("over-time", &market));
    assert!(!market_period_matches("extra", &market));
}

#[test]
fn fixtures_are_tried_live_first_and_nearest_first() {
    let at = |id: u64, start: u64, state: Option<u64>| TxLineFixture {
        fixture_id: id,
        participant_1: "A".into(),
        participant_2: "B".into(),
        participant_1_is_home: true,
        start_time_ms: start,
        game_state: state,
    };
    let now = 100_000_000;
    let fixtures = vec![
        at(1, now + 50, None),
        at(2, now - 900, Some(1)),
        at(3, now + 10, Some(1)),
        at(4, now - 5, Some(6)),
        at(5, now - 100, Some(2)),
        at(6, now - 21_600_001, None),
        at(7, now + 10, None),
    ];
    let ids: Vec<u64> = fixture_candidates(fixtures, None, now)
        .iter()
        .map(|f| f.fixture_id)
        .collect();
    assert_eq!(ids, vec![5, 2, 3, 7, 1]);
    let one = fixture_candidates(vec![at(1, now, None), at(2, now, None)], Some(2), now);
    assert_eq!(one.len(), 1);
    assert_eq!(one[0].fixture_id, 2);
}

#[test]
fn markets_are_tried_by_start_time_and_symbol() {
    let market = |symbol: &str, start: Option<u64>| PascalMarket {
        symbol: symbol.into(),
        event_description: "Spain - France".into(),
        market_description: "France".into(),
        market_period: String::new(),
        expected_event_start_time_ms: start,
        tags: vec![],
    };
    let markets = vec![
        market("Z", None),
        market("B", Some(1_000_010)),
        market("A", Some(1_000_010)),
        market("C", Some(1_000_001)),
        market("FAR", Some(1_000_000 + 129_600_001)),
    ];
    let symbols: Vec<String> = matching_markets(&fixture(), &markets, &None)
        .iter()
        .map(|m| m.symbol.clone())
        .collect();
    assert_eq!(symbols, vec!["C", "A", "B", "Z"]);
}

fn environment() -> EnvironmentValues {
    EnvironmentValues {
        txline_fixture_id: None,
        txline_origin: None,
        txline_api_token: Some("token".into()),
        txline_market: Some("env.market".into()),
        pascal_ws_url: None,
        pascal_symbol: Some("  ".into()),
    }
}

#[test]
fn discovery_reads_the_environment() {
    let config = DiscoveryConfig::from_environment(&environment(), None, None)
        .ok()
        .unwrap();
    assert_eq!(config.txline_origin, "https://txline-dev.txodds.com");
    assert_eq!(config.pascal_ws, "wss://data.pascal.trade/ws");
    assert_eq!(config.api_token, "token");
    assert_eq!(config.market_override.as_deref(), Some("env.market"));
    assert_eq!(config.pascal_symbol_override, None);
    assert_eq!(config.fixture_id_override, None);

    let mut named = environment();
    named.txline_fixture_id = Some("42".into());
    let config = DiscoveryConfig::from_environment(&named, Some("m".into()), Some("S".into()))
        .ok()
        .unwrap();
    assert_eq!(config.fixture_id_override, Some(42));
    assert_eq!(config.market_override.as_deref(), Some("m"));
    assert_eq!(config.pascal_symbol_override.as_deref(), Some("S"));

    named.txline_fixture_id = Some("x".into());
    assert_eq!(
        DiscoveryConfig::from_environment(&named, None, None).err(),
        Some(DiscoveryError::FixtureId)
    );
    let mut missing = environment();
    missing.txline_api_token = Some(" ".into());
    assert_eq!(
        DiscoveryConfig::from_environment(&missing, None, None).err(),
        Some(DiscoveryError::MissingToken)
    );
    assert!(
        DiscoveryConfig::optional_from_environment(&missing, None, None)
            .ok()
            .unwrap()
            .is_none()
    );
    assert!(
        DiscoveryConfig::optional_from_environment(&environment(), None, None)
            .ok()
            .unwrap()
            .is_some()
    );
    assert_eq!(
        DiscoveryError::MissingToken.message(),
        "TXLINE_API_TOKEN is required for live feeds"
    );
}

#[test]
fn discovery_resolves_the_first_fixture_with_an_outcome() {
    let config = DiscoveryConfig::from_environment(&environment(), None, None)
        .ok()
        .unwrap();
    let mut other = fixture();
    other.fixture_id = 7;
    other.participant_1 = "Peru".into();
    let fixtures = config
        .resolve_fixtures(vec![other, fixture()], 1_000_000)
        .ok()
        .unwrap();
    assert_eq!(fixtures.len(), 2);
    let markets = vec![PascalMarket {
        symbol: "FRAESP.FRANCE".into(),
        event_description: "France vs Spain".into(),
        market_description: "France win".into(),
        market_period: "Moneyline - Reg Time".into(),
        expected_event_start_time_ms: Some(1_000_000),
        tags: vec![],
    }];
    let at = config.resolve_next(&fixtures, &markets, 0).unwrap();
    assert_eq!(fixtures[at].fixture_id, 42);
    assert!(config
        .resolve_odds(&fixtures[at], &markets, &vec![])
        .is_none());
    let lines = vec![TxLineOddsLine {
        super_odds_type: "match_result".into(),
        market_parameters: String::new(),
        market_period: "full_time".into(),
        price_names: vec!["Away".into(), "Home".into()],
    }];
    let feed = config.resolve_odds(&fixtures[at], &markets, &lines).unwrap();
    assert_eq!(feed.event_label, "France vs Spain");
    assert_eq!(feed.mapping.market, "env.market");
    assert_eq!(feed.mapping.pascal_symbol, "FRAESP.FRANCE");
    assert_eq!(feed.mapping.txline_selection.price_index, 1);
    assert_eq!(config.resolve_next(&fixtures, &markets, at + 1), None);
    assert_eq!(
        config.resolve_fixtures(vec![], 0).err(),
        Some(DiscoveryError::NoFixture)
    );
}

#[test]
fn best_price_is_the_first_of_the_highest_score() {
    let market = PascalMarket {
        symbol: "S".into(),
        event_description: "France vs Spain".into(),
        market_description: "Draw between France and Spain".into(),
        market_period: "Reg Time".into(),
        expected_event_start_time_ms: None,
        tags: vec![],
    };
    let line = |names: Vec<&str>| TxLineOddsLine {
        super_odds_type: "t".into(),
        market_parameters: String::new(),
        market_period: "reg time".into(),
        price_names: names.into_iter().map(|n| n.to_owned()).collect(),
    };
    let chosen = select_outcome(
        &fixture(),
        &market,
        &vec![line(vec!["x", "1", "Draw", "France"])],
    )
    .unwrap();
    assert_eq!(chosen.price_name, "Draw");
    let chosen = select_outcome(&fixture(), &market, &vec![line(vec!["x", "2", "1"])]).unwrap();
    assert_eq!(chosen.price_name, "2");
    let chosen = select_outcome(&fixture(), &market, &vec![line(vec!["none", "x"])]).unwrap();
    assert_eq!(chosen.price_name, "x");
    assert!(select_outcome(&fixture(), &market, &vec![line(vec!["none"])]).is_none());
}

#[test]
fn one_number_has_one_shortest_form() {
    let shortest = |text: &str| canonical_number(&to_chars(text)).map(|form| from_chars(&form));
    for same in [
        ["1.5", "+01.50", "1.500"],
        ["0", "-0.0", "+000."],
        ["-2.25", "-02.250", "-2.2500"],
        ["10", "+10.0", "010"],
    ] {
        for text in same {
            assert_eq!(shortest(text).as_deref(), Some(same[0]));
        }
        assert_eq!(shortest(same[0]).as_deref(), Some(same[0]));
    }
    assert_ne!(shortest("1.5"), shortest("-1.5"));
    assert_ne!(shortest("1.05"), shortest("1.5"));
    assert_ne!(shortest("10"), shortest("1"));
    assert_eq!(shortest(""), None);
    assert_eq!(shortest(".5"), None);
    assert_eq!(shortest("1.5.2"), None);
}
