use tickfeed::bitmex::{bitmex_deltas, bitmex_price, BitmexEntry, BitmexMessage, Instrument};
use tickfeed::delta::{event, is_bid, is_trade, Delta, FeedError, Price, ASK, BID, REMOVE, TRADE, UPDATE};
use tickfeed::gdax::{gdax_deltas, gdax_deltas_at, GdaxChange, GdaxMessage};

fn entry(symbol: &str, side: &str, id: Option<u64>, size: Option<f32>) -> BitmexEntry {
    BitmexEntry {
        symbol: symbol.to_string(),
        side: side.to_string(),
        id,
        size: size.map(f32::to_bits),
    }
}

fn message(table: &str, action: &str, data: Vec<BitmexEntry>) -> BitmexMessage {
    BitmexMessage { table: table.to_string(), action: action.to_string(), data }
}

fn price_of(d: &Delta) -> f32 {
    match d.price {
        Price::Bits(b) => f32::from_bits(b),
        Price::Ticks { units, tick_size } => units as f32 * f32::from_bits(tick_size),
    }
}

fn registry() -> Vec<Instrument> {
    vec![
        Instrument { symbol: "XBTUSD".to_string(), tick_size: 0.5f32.to_bits() },
        Instrument { symbol: "ETHUSD".to_string(), tick_size: 0.05f32.to_bits() },
        Instrument { symbol: "LTCZ20".to_string(), tick_size: 0.000_005f32.to_bits() },
    ]
}

#[test]
fn event_bits_combine_side_and_kind() {
    assert_eq!(event(true, TRADE), 40);
    assert_eq!(event(true, TRADE), BID ^ TRADE);
    assert_eq!(event(false, UPDATE), ASK ^ UPDATE);
    assert_eq!(event(true, REMOVE), 34);
    assert!(is_trade(40) && is_bid(40));
    assert!(!is_trade(ASK ^ UPDATE) && !is_bid(ASK ^ UPDATE));
}

#[test]
fn bitmex_xbtusd_trade() {
    let msg = message("trade", "Trade", vec![entry("XBTUSD", "Buy", Some(8_799_990_000), Some(5.0))]);
    let deltas = bitmex_deltas(&msg, &vec![], 1_000).unwrap();
    assert_eq!(deltas.len(), 1);
    let d = &deltas[0];
    assert_eq!(d.symbol, "XBTUSD");
    assert!((price_of(d) - 100.0).abs() <= 100.0 * 1e-4);
    assert_eq!(f32::from_bits(d.size), 5.0);
    assert_eq!(d.event, 40);
    assert_eq!(d.seq, 1);
    assert_eq!(d.ts_millis, 1_000);
}

#[test]
fn bitmex_xbtusd_price_recovery() {
    for k in [8_799_990_000u64, 8_790_000_000, 8_000_000_000, 1] {
        let p = bitmex_price(&"XBTUSD".to_string(), k, &vec![]).unwrap();
        assert_eq!(p, Price::Ticks { units: 8_800_000_000 - k, tick_size: 0.01f32.to_bits() });
        let d = Delta { symbol: String::new(), price: p, size: 0, seq: 0, event: 0, ts_millis: 0 };
        let expected = (8_800_000_000 - k) as f64 * 0.01;
        assert!(((price_of(&d) as f64) - expected).abs() <= expected * 1e-4);
    }
    assert_eq!(bitmex_price(&"XBTUSD".to_string(), 8_800_000_000, &vec![]), None);
}

#[test]
fn bitmex_registered_symbol_price_recovery() {
    // ETHUSD is at index 1 of the table: ids count down from 100 000 000.
    let p = bitmex_price(&"ETHUSD".to_string(), 99_960_000, &registry()).unwrap();
    assert_eq!(p, Price::Ticks { units: 40_000, tick_size: 0.05f32.to_bits() });
    // LTCZ20 at index 2.
    let p = bitmex_price(&"LTCZ20".to_string(), 199_999_000, &registry()).unwrap();
    assert_eq!(p, Price::Ticks { units: 1_000, tick_size: 0.000_005f32.to_bits() });
    // Unknown symbol, id above the instrument's base, and index zero.
    assert_eq!(bitmex_price(&"DOGE".to_string(), 1, &registry()), None);
    assert_eq!(bitmex_price(&"ETHUSD".to_string(), 100_000_000, &registry()), None);
    let mut table = registry();
    table.remove(0);
    table.insert(0, Instrument { symbol: "ADAZ20".to_string(), tick_size: 1 });
    assert_eq!(bitmex_price(&"ADAZ20".to_string(), 5, &table), None);
}

#[test]
fn bitmex_later_listing_of_a_symbol_wins() {
    let mut table = registry();
    table.push(Instrument { symbol: "ETHUSD".to_string(), tick_size: 7 });
    let p = bitmex_price(&"ETHUSD".to_string(), 299_999_990, &table).unwrap();
    assert_eq!(p, Price::Ticks { units: 10, tick_size: 7 });
}

#[test]
fn bitmex_snapshots_and_tableless_messages_are_skipped() {
    let data = || vec![entry("XBTUSD", "Buy", Some(8_799_990_000), Some(5.0))];
    assert_eq!(
        bitmex_deltas(&message("orderBookL2", "partial", data()), &vec![], 0).err(),
        Some(FeedError::NotDeltas)
    );
    assert_eq!(bitmex_deltas(&message("", "update", data()), &vec![], 0).err(), Some(FeedError::NotDeltas));
}

#[test]
fn bitmex_update_batch_numbers_entries_with_an_id() {
    let msg = message(
        "orderBookL2",
        "update",
        vec![
            entry("XBTUSD", "Sell", Some(8_799_990_000), None),
            entry("XBTUSD", "Buy", None, Some(1.0)),
            entry("ETHUSD", "Buy", Some(99_960_000), Some(3.0)),
        ],
    );
    let deltas = bitmex_deltas(&msg, &registry(), 7).unwrap();
    assert_eq!(deltas.len(), 2);
    assert_eq!(deltas[0].event, ASK ^ UPDATE);
    assert_eq!(deltas[0].size, 0);
    assert_eq!(deltas[0].seq, 1);
    assert_eq!(deltas[1].symbol, "ETHUSD");
    assert_eq!(deltas[1].event, BID ^ UPDATE);
    assert_eq!(deltas[1].price, Price::Ticks { units: 40_000, tick_size: 0.05f32.to_bits() });
    assert_eq!(deltas[1].seq, 2);
    assert_eq!(deltas[1].ts_millis, 7);
}

#[test]
fn bitmex_unknown_symbol_drops_the_batch() {
    let msg = message(
        "orderBookL2",
        "update",
        vec![entry("XBTUSD", "Buy", Some(8_799_990_000), Some(1.0)), entry("NOPE", "Buy", Some(1), Some(1.0))],
    );
    assert_eq!(bitmex_deltas(&msg, &registry(), 0).err(), Some(FeedError::UnknownPrice));
}

fn change(side: &str, price: &str, size: &str) -> GdaxChange {
    GdaxChange {
        side: side.to_string(),
        price: price.parse::<f32>().unwrap().to_bits(),
        size: size.parse::<f32>().unwrap().to_bits(),
    }
}

fn gdax(kind: &str, time: &str) -> GdaxMessage {
    GdaxMessage {
        kind: kind.to_string(),
        product_id: "BTC-USD".to_string(),
        time: time.to_string(),
        changes: None,
        sequence: None,
        price: None,
        size: None,
        side: None,
    }
}

#[test]
fn gdax_l2update() {
    let mut msg = gdax("l2update", "2020-01-02T03:04:05.678Z");
    msg.changes = Some(vec![change("buy", "9000.00", "0"), change("sell", "9001.00", "0.5")]);
    let deltas = gdax_deltas(&msg).unwrap();
    assert_eq!(deltas.len(), 2);
    assert_eq!(deltas[0].event, BID ^ REMOVE);
    assert_eq!(deltas[0].price, Price::Bits(9000.0f32.to_bits()));
    assert_eq!(f32::from_bits(deltas[0].size), 0.0);
    assert_eq!(deltas[0].seq, 1);
    assert_eq!(deltas[1].event, ASK ^ UPDATE);
    assert_eq!(deltas[1].price, Price::Bits(9001.0f32.to_bits()));
    assert_eq!(f32::from_bits(deltas[1].size), 0.5);
    assert_eq!(deltas[1].seq, 2);
    assert_eq!(deltas[0].ts_millis, 1_577_934_245_678);
    assert_eq!(deltas[0].ts_millis, deltas[1].ts_millis);
    assert_eq!(deltas[0].symbol, "BTC-USD");
}

#[test]
fn gdax_match_uses_the_sequence_and_microsecond_time() {
    let mut msg = gdax("match", "2020-01-02T03:04:05.678901Z");
    msg.sequence = Some((1u128 << 32) + 77);
    msg.price = Some(9000.5f32.to_bits());
    msg.size = Some(0.25f32.to_bits());
    msg.side = Some("sell".to_string());
    let deltas = gdax_deltas(&msg).unwrap();
    assert_eq!(deltas.len(), 1);
    assert_eq!(deltas[0].event, ASK ^ TRADE);
    assert_eq!(deltas[0].seq, 77);
    assert_eq!(deltas[0].ts_millis, 1_577_934_245_678);
    msg.kind = "last_match".to_string();
    msg.side = Some("buy".to_string());
    assert_eq!(gdax_deltas(&msg).unwrap()[0].event, BID ^ TRADE);
}

#[test]
fn gdax_errors() {
    let mut msg = gdax("match", "2020-01-02T03:04:05.678901Z");
    assert_eq!(gdax_deltas(&msg).err(), Some(FeedError::MissingField));
    msg.sequence = Some(1);
    msg.price = Some(1);
    msg.size = Some(1);
    msg.side = Some("buy".to_string());
    msg.time = "yesterday".to_string();
    assert_eq!(gdax_deltas(&msg).err(), Some(FeedError::BadTime));
    let snapshot = gdax("snapshot", "2020-01-02T03:04:05.678Z");
    assert_eq!(gdax_deltas(&snapshot).err(), Some(FeedError::NotDeltas));
    let mut update = gdax("l2update", "2020-01-02T03:04:05Z");
    update.changes = Some(vec![change("buy", "1", "1")]);
    assert_eq!(gdax_deltas(&update).err(), Some(FeedError::BadTime));
}

#[test]
fn gdax_decoding_with_a_given_time() {
    let mut msg = gdax("l2update", "ignored");
    msg.changes = Some(vec![change("sell", "10", "-0")]);
    let deltas = gdax_deltas_at(&msg, Some(42)).unwrap();
    assert_eq!(deltas[0].event, ASK ^ REMOVE);
    assert_eq!(deltas[0].ts_millis, 42);
    assert_eq!(gdax_deltas_at(&msg, None).err(), Some(FeedError::BadTime));
}
