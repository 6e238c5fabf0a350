use tickfeed::book::{Book, Snapshot};

const TICK_SIZE: f32 = 0.5;

fn tick(price: f32) -> u64 {
    (price / TICK_SIZE) as u64
}

fn bootstrap() -> Book {
    let snapshot = Snapshot {
        market: None,
        asset: None,
        bids: vec![
            (tick(302.0), 50.0f32.to_bits()),
            (tick(303.0), 100.0f32.to_bits()),
            (tick(304.0), 11111.0f32.to_bits()),
        ],
        asks: vec![
            (tick(305.0), 20.5f32.to_bits()),
            (tick(306.0), 1.0f32.to_bits()),
            (tick(307.0), 154.25f32.to_bits()),
        ],
    };
    let mut book = Book {
        price_levels: 200_000,
        ..Default::default()
    };
    book.initialize(&snapshot);
    book
}

fn size(book: &Book, t: u64) -> Option<f32> {
    book.state[t as usize].map(f32::from_bits)
}

/// Checks the five book invariants on a concrete book.
fn assert_invariants(book: &Book) {
    let bids = &book.bid_price_points;
    let asks = &book.ask_price_points;
    if let Some(&b) = bids.last() {
        assert_eq!(book.best_bid, b);
        assert_eq!(book.state[b as usize], Some(book.best_bid_size));
    }
    if let Some(&a) = asks.first() {
        assert_eq!(book.best_ask, a);
        assert_eq!(book.state[a as usize], Some(book.best_ask_size));
    }
    if !bids.is_empty() && !asks.is_empty() {
        assert!(book.best_bid < book.best_ask);
    }
    for (t, level) in book.state.iter().enumerate() {
        let t = t as u64;
        let on_bid = bids.contains(&t);
        let on_ask = asks.contains(&t);
        assert!(!(on_bid && on_ask));
        assert_eq!(level.is_some(), on_bid || on_ask);
        if !bids.is_empty() {
            assert_eq!(on_bid, level.is_some() && t <= book.best_bid);
        }
        if !asks.is_empty() {
            assert_eq!(on_ask, level.is_some() && t >= book.best_ask);
        }
    }
}

#[test]
fn bootstrap_fills_levels_and_best_prices() {
    let book = bootstrap();
    assert_eq!(size(&book, 604), Some(50.0));
    assert_eq!(size(&book, 606), Some(100.0));
    assert_eq!(size(&book, 608), Some(11111.0));
    assert_eq!(size(&book, 610), Some(20.5));
    assert_eq!(size(&book, 612), Some(1.0));
    assert_eq!(size(&book, 614), Some(154.25));
    assert_eq!(book.best_bid, 608);
    assert_eq!(f32::from_bits(book.best_bid_size), 11111.0);
    assert_eq!(book.best_ask, 610);
    assert_eq!(f32::from_bits(book.best_ask_size), 20.5);
    assert_eq!(book.state.len(), 200_000);
    assert_invariants(&book);
}

#[test]
fn new_best_bid_via_limit() {
    let mut book = bootstrap();
    book.new_state(&vec![(609, 400.523f32.to_bits(), true)]);
    assert_eq!(book.best_bid, 609);
    assert_eq!(f32::from_bits(book.best_bid_size), 400.523);
    assert_eq!(book.best_ask, 610);
    assert_invariants(&book);
}

#[test]
fn cancel_best_ask() {
    let mut book = bootstrap();
    book.new_state(&vec![(609, 400.523f32.to_bits(), true)]);
    book.new_state(&vec![(610, 0.0f32.to_bits(), false)]);
    assert_eq!(book.best_ask, 612);
    assert_eq!(f32::from_bits(book.best_ask_size), 1.0);
    assert!(book.state[610].is_none());
    assert_invariants(&book);
}

#[test]
fn bid_to_ask_flip() {
    let mut book = bootstrap();
    book.new_state(&vec![(609, 400.523f32.to_bits(), true)]);
    book.new_state(&vec![(610, 0.0f32.to_bits(), false)]);
    book.new_state(&vec![(609, 0.0f32.to_bits(), true), (609, 2500.0f32.to_bits(), false)]);
    assert_eq!(book.best_bid, 608);
    assert_eq!(book.best_ask, 609);
    assert_eq!(f32::from_bits(book.best_ask_size), 2500.0);
    assert_invariants(&book);
}

#[test]
fn invariants_hold_after_a_sequence_of_updates() {
    let mut book = bootstrap();
    let batches: Vec<Vec<(u64, f32, bool)>> = vec![
        vec![(600, 3.0, true), (620, 4.0, false), (608, 7.0, true)],
        vec![(608, 0.0, true), (606, 0.0, true), (605, 1.5, false)],
        vec![(604, 0.0, true), (600, 0.0, true), (605, -0.0, false)],
        vec![(610, 9.0, true), (611, 2.0, false)],
    ];
    for batch in batches {
        let updates: Vec<(u64, u32, bool)> =
            batch.iter().map(|(t, s, b)| (*t, s.to_bits(), *b)).collect();
        book.new_state(&updates);
        assert_invariants(&book);
    }
    // Every bid is gone; the lowest ask is 610.
    assert!(book.bid_price_points.is_empty());
    assert_eq!(book.best_bid, 0);
    assert_eq!(book.best_bid_size, 0);
    assert_eq!(book.best_ask, 610);
}

#[test]
fn crossing_levels_are_rejected() {
    let mut book = bootstrap();
    // A bid at or above the best ask, and an ask at or below the best bid.
    book.new_state(&vec![(610, 5.0f32.to_bits(), true), (611, 5.0f32.to_bits(), true)]);
    book.new_state(&vec![(608, 5.0f32.to_bits(), false), (600, 5.0f32.to_bits(), false)]);
    assert_eq!(book.best_bid, 608);
    assert_eq!(f32::from_bits(book.best_bid_size), 11111.0);
    assert_eq!(book.best_ask, 610);
    assert_eq!(f32::from_bits(book.best_ask_size), 20.5);
    assert!(book.state[611].is_none());
    assert!(book.state[600].is_none());
    assert_invariants(&book);
}

#[test]
fn removal_of_an_absent_level_changes_nothing() {
    let mut book = bootstrap();
    // Nothing at 700; 610 is an ask, so a bid removal there does not touch it.
    book.new_state(&vec![(700, 0.0f32.to_bits(), true), (610, 0.0f32.to_bits(), true)]);
    assert_eq!(size(&book, 610), Some(20.5));
    assert_eq!(book.best_ask, 610);
    assert_eq!(book.best_bid, 608);
    assert_invariants(&book);
}

#[test]
fn out_of_range_ticks_are_skipped() {
    let mut book = bootstrap();
    book.new_state(&vec![(300_000, 1.0f32.to_bits(), false), (u64::MAX, 0.0f32.to_bits(), true)]);
    assert_eq!(book.ask_price_points, vec![610, 612, 614]);
    assert_eq!(book.bid_price_points, vec![604, 606, 608]);
}

#[test]
fn removal_is_idempotent() {
    let mut once = bootstrap();
    let mut twice = bootstrap();
    let removal = (606, 0.0f32.to_bits(), true);
    once.new_state(&vec![removal]);
    twice.new_state(&vec![removal, removal]);
    assert_eq!(once.state, twice.state);
    assert_eq!(once.bid_price_points, twice.bid_price_points);
    assert_eq!(once.ask_price_points, twice.ask_price_points);
    assert_eq!(once.best_bid, twice.best_bid);
    assert_eq!(once.best_bid_size, twice.best_bid_size);
    let best = (608, 0.0f32.to_bits(), true);
    once.new_state(&vec![best]);
    twice.new_state(&vec![best, best]);
    assert_eq!(once.state, twice.state);
    assert_eq!(once.best_bid, 606 - 2);
    assert_eq!(once.best_bid, twice.best_bid);
}

#[test]
fn snapshot_round_trip() {
    let snapshot = Snapshot {
        market: None,
        asset: None,
        bids: vec![(30, 7), (10, 5), (20, 6)],
        asks: vec![(50, 9), (40, 8)],
    };
    let mut book = Book {
        price_levels: 100,
        ..Default::default()
    };
    book.initialize(&snapshot);
    let out = book.get_snapshot();
    assert_eq!(out.bids, vec![(10, 5), (20, 6), (30, 7)]);
    assert_eq!(out.asks, vec![(40, 8), (50, 9)]);
    assert!(out.market.is_none() && out.asset.is_none());
}

#[test]
fn snapshot_with_repeated_tick_keeps_the_later_size() {
    let snapshot = Snapshot {
        market: None,
        asset: None,
        bids: vec![(10, 5), (10, 6)],
        asks: vec![],
    };
    let mut book = Book {
        price_levels: 100,
        ..Default::default()
    };
    book.initialize(&snapshot);
    assert_eq!(book.get_snapshot().bids, vec![(10, 6)]);
    assert_eq!(book.best_bid, 10);
    assert_eq!(book.best_bid_size, 6);
}

#[test]
fn empty_snapshot_gives_an_empty_book() {
    let snapshot = Snapshot { market: None, asset: None, bids: vec![], asks: vec![] };
    let mut book = Book {
        price_levels: 10,
        ..Default::default()
    };
    book.initialize(&snapshot);
    assert_eq!(book.state, vec![None; 10]);
    assert_eq!((book.best_bid, book.best_ask), (0, 0));
    let out = book.get_snapshot();
    assert!(out.bids.is_empty() && out.asks.is_empty());
}

#[test]
fn default_book_is_stamped_with_the_current_time() {
    let book = Book::default();
    // 2020-01-01T00:00:00Z
    assert!(book.start_ts > 1_577_836_800_000);
    assert_eq!(book.price_levels, 1_000_000_000);
    assert!(book.state.is_empty());
}
