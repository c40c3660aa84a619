use tickstream::frames::{
    parse_trade_frame, subscribe_frame, symbol_is_plain, unsubscribe_frame, PRICE_SCALE,
};

#[test]
fn a_typical_trade_frame_parses() {
    let f = br#"{"data":[{"p":150.25,"s":"AAPL","t":1700000000000,"v":100}],"type":"trade"}"#;
    let evs = parse_trade_frame(f).unwrap();
    assert_eq!(evs.len(), 1);
    assert_eq!(evs[0].price_scaled, 1_502_500);
    assert_eq!(evs[0].epoch_secs, 1_700_000_000);
    assert_eq!(evs[0].volume, Some(100));
}

#[test]
fn price_scale_is_ten_thousand() {
    assert_eq!(PRICE_SCALE, 10_000);
    let f = br#"{"type":"trade","data":[{"p":150,"t":1000}]}"#;
    let evs = parse_trade_frame(f).unwrap();
    assert_eq!(evs[0].price_scaled, 1_500_000);
    assert_eq!(evs[0].epoch_secs, 1);
    assert_eq!(evs[0].volume, None);
}

#[test]
fn a_frame_may_batch_several_trades() {
    let f = br#"{"type":"trade","data":[{"p":1.5,"t":2000,"v":7},{"p":2.25,"t":3000}]}"#;
    let evs = parse_trade_frame(f).unwrap();
    assert_eq!(evs.len(), 2);
    assert_eq!(evs[0].price_scaled, 15_000);
    assert_eq!(evs[0].epoch_secs, 2);
    assert_eq!(evs[0].volume, Some(7));
    assert_eq!(evs[1].price_scaled, 22_500);
    assert_eq!(evs[1].epoch_secs, 3);
    assert_eq!(evs[1].volume, None);
}

#[test]
fn field_order_and_whitespace_are_free() {
    let f = b" { \"data\" : [ { \"t\" : 9000 , \"p\" : 0.0001 } ] , \"type\" : \"trade\" } ";
    let evs = parse_trade_frame(f).unwrap();
    assert_eq!(evs.len(), 1);
    assert_eq!(evs[0].price_scaled, 1);
    assert_eq!(evs[0].epoch_secs, 9);
}

#[test]
fn fractional_digits_beyond_the_fourth_are_truncated() {
    let f = br#"{"type":"trade","data":[{"p":1.23456789,"t":1000}]}"#;
    let evs = parse_trade_frame(f).unwrap();
    assert_eq!(evs[0].price_scaled, 12_345);
}

#[test]
fn unknown_members_and_flat_containers_are_skipped() {
    let f = br#"{"type":"trade","x":null,"y":[true,false,"s"],"z":{"a":1},"data":[{"p":2,"t":5000,"c":["1","12"],"note":"hi"}]}"#;
    let evs = parse_trade_frame(f).unwrap();
    assert_eq!(evs.len(), 1);
    assert_eq!(evs[0].price_scaled, 20_000);
}

#[test]
fn non_trade_frames_are_ignored() {
    assert!(parse_trade_frame(br#"{"type":"ping"}"#).is_none());
    assert!(parse_trade_frame(br#"{"data":[{"p":1,"t":1000}]}"#).is_none());
    assert!(parse_trade_frame(b"").is_none());
    assert!(parse_trade_frame(b"hello").is_none());
    assert!(parse_trade_frame(br#"{"type":"trade","data":[{"p":1,"t":1000}]}trailing"#).is_none());
    assert!(parse_trade_frame(br#"{"type":"trade","data":{"p":1}}"#).is_none());
}

#[test]
fn a_trade_frame_without_data_carries_no_events() {
    assert!(parse_trade_frame(br#"{"type":"trade"}"#).is_none());
    let evs = parse_trade_frame(br#"{"type":"trade","data":[]}"#).unwrap();
    assert_eq!(evs.len(), 0);
}

#[test]
fn an_element_without_price_or_timestamp_yields_no_event() {
    let f = br#"{"type":"trade","data":[{"t":1000},{"p":3,"t":4000},{"p":9}]}"#;
    let evs = parse_trade_frame(f).unwrap();
    assert_eq!(evs.len(), 1);
    assert_eq!(evs[0].price_scaled, 30_000);
}

#[test]
fn odd_number_forms_drop_the_value_but_not_the_frame() {
    // An exponent price and a fractional volume carry no value; the
    // element still parses, and the timestamped one without a price
    // yields nothing.
    let f = br#"{"type":"trade","data":[{"p":1.5e2,"t":1000},{"p":4,"t":2000,"v":0.5}]}"#;
    let evs = parse_trade_frame(f).unwrap();
    assert_eq!(evs.len(), 1);
    assert_eq!(evs[0].price_scaled, 40_000);
    assert_eq!(evs[0].volume, None);
}

#[test]
fn values_too_large_for_the_fixed_point_carry_nothing() {
    // A price that cannot be scaled into u64, and a timestamp beyond
    // u64: the elements parse, but yield no event.
    let f = br#"{"type":"trade","data":[{"p":99999999999999999999,"t":1000},{"p":1,"t":99999999999999999999999999}]}"#;
    let evs = parse_trade_frame(f).unwrap();
    assert_eq!(evs.len(), 0);
}

#[test]
fn the_last_occurrence_of_a_key_wins() {
    let f = br#"{"type":"trade","data":[{"p":1,"p":2,"t":1000}]}"#;
    let evs = parse_trade_frame(f).unwrap();
    assert_eq!(evs[0].price_scaled, 20_000);
}

#[test]
fn deeply_nested_skipped_values_are_outside_the_grammar() {
    let f = br#"{"type":"trade","extra":{"a":{"b":1}},"data":[{"p":1,"t":1000}]}"#;
    assert!(parse_trade_frame(f).is_none());
}

#[test]
fn escaped_quotes_inside_strings_are_carried_over() {
    let f = br#"{"type":"trade","data":[{"p":5,"t":7000,"s":"A\"B"}]}"#;
    let evs = parse_trade_frame(f).unwrap();
    assert_eq!(evs.len(), 1);
}

#[test]
fn control_frames_have_the_documented_shape() {
    assert!(symbol_is_plain("AAPL"));
    assert!(symbol_is_plain("BINANCE:BTCUSDT"));
    assert!(!symbol_is_plain("A\"B"));
    assert!(!symbol_is_plain("A\\B"));
    assert_eq!(
        subscribe_frame("AAPL"),
        br#"{"type":"subscribe","symbol":"AAPL"}"#.to_vec()
    );
    assert_eq!(
        unsubscribe_frame("BINANCE:BTCUSDT"),
        br#"{"type":"unsubscribe","symbol":"BINANCE:BTCUSDT"}"#.to_vec()
    );
}

#[test]
fn a_built_subscribe_frame_is_itself_a_valid_frame_but_not_a_trade() {
    let frame = subscribe_frame("AAPL");
    assert!(parse_trade_frame(frame.as_slice()).is_none());
}
