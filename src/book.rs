//! Limit-order-book state: a dense vector indexed by price tick, the occupied
//! ticks of each side kept in ascending order, and the best level of each side.
//!
//! Sizes are carried as the bit patterns of IEEE-754 single-precision numbers:
//! the book never does arithmetic on a size, it only stores it and tells a
//! removal (a size equal to zero, of either sign) from a placement.

use vstd::prelude::*;

use crate::clock::now_millis;
use crate::exchange::Asset;

verus! {

/// Bit pattern of a single-precision `+0.0`.
pub const POSITIVE_ZERO: u32 = 0;

/// Bit pattern of a single-precision `-0.0`.
pub const NEGATIVE_ZERO: u32 = 0x8000_0000;

/// A size compares equal to zero exactly when it is `+0.0` or `-0.0`.
pub open spec fn is_zero_size(size: u32) -> bool {
    size == POSITIVE_ZERO || size == NEGATIVE_ZERO
}

/// Whether `size` (a single-precision bit pattern) compares equal to zero.
pub fn size_is_zero(size: u32) -> (r: bool)
    ensures
        r == is_zero_size(size),
{
    size == POSITIVE_ZERO || size == NEGATIVE_ZERO
}

/// Each tick is greater than the one before it.
pub open spec fn strictly_ascending(s: Seq<u64>) -> bool {
    forall|i: int, j: int| 0 <= i < j < s.len() ==> s[i] < s[j]
}

/// What a book holds: the number of addressable ticks and, per side, the
/// size resting at each occupied tick.
pub struct BookModel {
    pub levels: nat,
    pub bids: Map<u64, u32>,
    pub asks: Map<u64, u32>,
}

/// A level at `tick` on the given side would cross the opposite side.
pub open spec fn crosses(m: BookModel, tick: u64, is_bid: bool) -> bool {
    if is_bid {
        exists|a: u64| m.asks.contains_key(a) && a <= tick
    } else {
        exists|b: u64| m.bids.contains_key(b) && tick <= b
    }
}

/// Rests `size` at `tick` on one side, unless the tick is out of range or the
/// level would cross the book, in which case the book is left as it is.
pub open spec fn placed(m: BookModel, tick: u64, size: u32, is_bid: bool) -> BookModel {
    if tick >= m.levels || crosses(m, tick, is_bid) {
        m
    } else if is_bid {
        BookModel { bids: m.bids.insert(tick, size), ..m }
    } else {
        BookModel { asks: m.asks.insert(tick, size), ..m }
    }
}

/// Clears `tick` on one side; a tick that side does not hold is left alone.
pub open spec fn removed(m: BookModel, tick: u64, is_bid: bool) -> BookModel {
    if is_bid {
        BookModel { bids: m.bids.remove(tick), ..m }
    } else {
        BookModel { asks: m.asks.remove(tick), ..m }
    }
}

/// One update `(tick, size, is_bid)`: a zero size removes the level, any
/// other size places it.
pub open spec fn applied(m: BookModel, u: (u64, u32, bool)) -> BookModel {
    if is_zero_size(u.1) {
        removed(m, u.0, u.2)
    } else {
        placed(m, u.0, u.1, u.2)
    }
}

/// Updates applied one after another, in order.
pub open spec fn applied_all(m: BookModel, us: Seq<(u64, u32, bool)>) -> BookModel
    decreases us.len(),
{
    if us.len() == 0 {
        m
    } else {
        applied(applied_all(m, us.drop_last()), us.last())
    }
}

/// Snapshot levels placed one after another on one side.
pub open spec fn placed_all(m: BookModel, ls: Seq<(u64, u32)>, is_bid: bool) -> BookModel
    decreases ls.len(),
{
    if ls.len() == 0 {
        m
    } else {
        placed(placed_all(m, ls.drop_last(), is_bid), ls.last().0, ls.last().1, is_bid)
    }
}

/// The tick-to-size map a list of levels describes; a later entry for a tick
/// replaces an earlier one.
pub open spec fn levels_of(ls: Seq<(u64, u32)>) -> Map<u64, u32>
    decreases ls.len(),
{
    if ls.len() == 0 {
        Map::empty()
    } else {
        levels_of(ls.drop_last()).insert(ls.last().0, ls.last().1)
    }
}

/// An empty book with `levels` addressable ticks.
pub open spec fn empty_model(levels: nat) -> BookModel {
    BookModel { levels, bids: Map::empty(), asks: Map::empty() }
}

/// Every tick of an ascending sequence lies between its first and last tick.
proof fn lemma_ascending_bounds(s: Seq<u64>, x: u64)
    requires
        strictly_ascending(s),
        s.contains(x),
    ensures
        s[0] <= x,
        x <= s.last(),
{
    let k = choose|k: int| 0 <= k < s.len() && s[k] == x;
    if k > 0 {
        assert(s[0] < s[k]);
    }
    if k < s.len() - 1 {
        assert(s[k] < s[s.len() - 1]);
    }
}

/// The ticks of a list of levels ascend strictly.
pub open spec fn ticks_ascending(ls: Seq<(u64, u32)>) -> bool {
    forall|i: int, j: int| 0 <= i < j < ls.len() ==> ls[i].0 < ls[j].0
}

/// The ticks that a list of levels describes are the ticks it names.
pub proof fn lemma_levels_of_keys(ls: Seq<(u64, u32)>)
    ensures
        forall|k: u64| #[trigger]
            levels_of(ls).contains_key(k) <==> exists|i: int| 0 <= i < ls.len() && ls[i].0 == k,
    decreases ls.len(),
{
    if ls.len() > 0 {
        let init = ls.drop_last();
        lemma_levels_of_keys(init);
        assert forall|k: u64| #[trigger]
            levels_of(ls).contains_key(k) <==> exists|i: int| 0 <= i < ls.len() && ls[i].0 == k by {
            assert(levels_of(ls) == levels_of(init).insert(ls.last().0, ls.last().1));
            if levels_of(ls).contains_key(k) {
                if k == ls.last().0 {
                    assert(ls[ls.len() - 1].0 == k);
                } else {
                    assert(levels_of(init).contains_key(k));
                    let i = choose|i: int| 0 <= i < init.len() && init[i].0 == k;
                    assert(ls[i].0 == k);
                }
            }
            if exists|i: int| 0 <= i < ls.len() && ls[i].0 == k {
                let i = choose|i: int| 0 <= i < ls.len() && ls[i].0 == k;
                if i < ls.len() - 1 {
                    assert(init[i].0 == k);
                    assert(levels_of(init).contains_key(k));
                }
            }
        }
    }
}

/// With ascending ticks, each level of a list is found in the map it describes.
pub proof fn lemma_levels_of_ascending(ls: Seq<(u64, u32)>)
    requires
        ticks_ascending(ls),
    ensures
        forall|i: int| #![trigger ls[i]] 0 <= i < ls.len() ==> levels_of(ls).contains_key(ls[i].0)
            && levels_of(ls)[ls[i].0] == ls[i].1,
    decreases ls.len(),
{
    if ls.len() > 0 {
        let init = ls.drop_last();
        lemma_levels_of_ascending(init);
        assert forall|i: int| #![trigger ls[i]] 0 <= i < ls.len() implies levels_of(ls).contains_key(ls[i].0)
            && levels_of(ls)[ls[i].0] == ls[i].1 by {
            if i < ls.len() - 1 {
                assert(init[i] == ls[i]);
                assert(ls[i].0 < ls[ls.len() - 1].0);
            }
        }
    }
}

/// Snapshot bids placed on an empty book form the map the bids describe, as
/// long as every tick is in range.
proof fn lemma_place_bids(levels: nat, bids: Seq<(u64, u32)>)
    requires
        forall|i: int| 0 <= i < bids.len() ==> (#[trigger] bids[i]).0 < levels,
    ensures
        placed_all(empty_model(levels), bids, true) == (BookModel {
            levels,
            bids: levels_of(bids),
            asks: Map::empty(),
        }),
    decreases bids.len(),
{
    if bids.len() > 0 {
        let init = bids.drop_last();
        assert forall|i: int| 0 <= i < init.len() implies (#[trigger] init[i]).0 < levels by {
            assert(init[i] == bids[i]);
        }
        lemma_place_bids(levels, init);
        assert(bids[bids.len() - 1].0 < levels);
    }
}

/// Snapshot asks placed above every bid form the map the asks describe.
proof fn lemma_place_asks(m: BookModel, asks: Seq<(u64, u32)>)
    requires
        m.asks == Map::<u64, u32>::empty(),
        forall|i: int| 0 <= i < asks.len() ==> (#[trigger] asks[i]).0 < m.levels,
        forall|i: int, b: u64| 0 <= i < asks.len() && #[trigger] m.bids.contains_key(b) ==> b < (
        #[trigger] asks[i]).0,
    ensures
        placed_all(m, asks, false) == (BookModel { asks: levels_of(asks), ..m }),
    decreases asks.len(),
{
    if asks.len() > 0 {
        let init = asks.drop_last();
        assert forall|i: int| 0 <= i < init.len() implies (#[trigger] init[i]).0 < m.levels by {
            assert(init[i] == asks[i]);
        }
        assert forall|i: int, b: u64| 0 <= i < init.len() && #[trigger] m.bids.contains_key(b) implies b < (
        #[trigger] init[i]).0 by {
            assert(init[i] == asks[i]);
        }
        lemma_place_asks(m, init);
        let last = asks[asks.len() - 1];
        let inner = placed_all(m, init, false);
        assert(!crosses(inner, last.0, false));
    }
}

/// Snapshot round trip: a snapshot whose ticks are all in range and whose bids
/// all lie below its asks is exactly what a book initialized from it holds, so
/// the snapshot the book then exports describes the same levels.
pub proof fn lemma_snapshot_round_trip(levels: nat, bids: Seq<(u64, u32)>, asks: Seq<(u64, u32)>)
    requires
        forall|i: int| 0 <= i < bids.len() ==> (#[trigger] bids[i]).0 < levels,
        forall|i: int| 0 <= i < asks.len() ==> (#[trigger] asks[i]).0 < levels,
        forall|i: int, j: int|
            0 <= i < bids.len() && 0 <= j < asks.len() ==> (#[trigger] bids[i]).0 < (
            #[trigger] asks[j]).0,
    ensures
        placed_all(placed_all(empty_model(levels), bids, true), asks, false) == (BookModel {
            levels,
            bids: levels_of(bids),
            asks: levels_of(asks),
        }),
{
    lemma_place_bids(levels, bids);
    lemma_levels_of_keys(bids);
    let m = placed_all(empty_model(levels), bids, true);
    assert forall|i: int, b: u64| 0 <= i < asks.len() && #[trigger] m.bids.contains_key(b) implies b < (
    #[trigger] asks[i]).0 by {
        let k = choose|k: int| 0 <= k < bids.len() && bids[k].0 == b;
        assert(bids[k].0 < asks[i].0);
    }
    lemma_place_asks(m, asks);
}

/// Position of `t` in an ascending vector, if it is there.
fn find_point(points: &Vec<u64>, t: u64) -> (r: Option<usize>)
    requires
        strictly_ascending(points@),
    ensures
        match r {
            Some(i) => i < points@.len() && points@[i as int] == t,
            None => !points@.contains(t),
        },
{
    let mut i: usize = 0;
    while i < points.len()
        invariant
            i <= points@.len(),
            forall|j: int| 0 <= j < i ==> points@[j] != t,
        decreases points@.len() - i,
    {
        if points[i] == t {
            return Some(i);
        }
        i += 1;
    }
    None
}

/// Inserting `t` where it belongs keeps a sequence ascending, and adds just `t`.
proof fn lemma_insert_ascending(s: Seq<u64>, i: int, t: u64)
    requires
        strictly_ascending(s),
        0 <= i <= s.len(),
        forall|j: int| 0 <= j < i ==> s[j] < t,
        i < s.len() ==> s[i] > t,
    ensures
        strictly_ascending(s.insert(i, t)),
        forall|x: u64| #[trigger] s.insert(i, t).contains(x) <==> (s.contains(x) || x == t),
{
    let r = s.insert(i, t);
    s.insert_ensures(i, t);
    assert forall|j: int| i <= j < s.len() implies s[j] > t by {
        if j > i {
            assert(s[i] < s[j]);
        }
    }
    assert forall|a: int, b: int| 0 <= a < b < r.len() implies r[a] < r[b] by {
        if b < i {
            assert(r[a] == s[a] && r[b] == s[b]);
        } else if b == i {
            assert(r[a] == s[a]);
        } else if a < i {
            assert(r[a] == s[a] && r[b] == s[b - 1]);
        } else if a == i {
            assert(r[b] == s[b - 1]);
        } else {
            assert(r[a] == s[a - 1] && r[b] == s[b - 1]);
        }
    }
    assert forall|x: u64| r.contains(x) <==> (s.contains(x) || x == t) by {
        if s.contains(x) {
            let k = choose|k: int| 0 <= k < s.len() && s[k] == x;
            if k < i {
                assert(r[k] == x);
            } else {
                assert(r[k + 1] == x);
            }
        }
        if x == t {
            assert(r[i] == x);
        }
        if r.contains(x) {
            let k = choose|k: int| 0 <= k < r.len() && r[k] == x;
            if k < i {
                assert(s[k] == x);
            } else if k > i {
                assert(s[k - 1] == x);
            }
        }
    }
}

/// Adds `t` to an ascending vector of distinct ticks, keeping it so.
fn insert_point(points: &mut Vec<u64>, t: u64)
    requires
        strictly_ascending(old(points)@),
    ensures
        strictly_ascending(final(points)@),
        forall|x: u64| final(points)@.contains(x) <==> (old(points)@.contains(x) || x == t),
{
    let mut i: usize = 0;
    while i < points.len() && points[i] < t
        invariant
            i <= points@.len(),
            forall|j: int| 0 <= j < i ==> points@[j] < t,
        decreases points@.len() - i,
    {
        i += 1;
    }
    if i < points.len() && points[i] == t {
        assert(points@.contains(t));
        return;
    }
    assert(i < points@.len() ==> points@[i as int] > t);
    let ghost before = points@;
    points.insert(i, t);
    proof {
        lemma_insert_ascending(before, i as int, t);
        assert(points@ == before.insert(i as int, t));
    }
}

/// Takes `t` out of an ascending vector of distinct ticks, keeping it so.
fn remove_point(points: &mut Vec<u64>, t: u64)
    requires
        strictly_ascending(old(points)@),
    ensures
        strictly_ascending(final(points)@),
        forall|x: u64| final(points)@.contains(x) <==> (old(points)@.contains(x) && x != t),
{
    match find_point(points, t) {
        None => {},
        Some(i) => {
            let ghost before = points@;
            points.remove(i);
            proof {
                before.remove_ensures(i as int);
                assert forall|a: int, b: int| 0 <= a < b < points@.len() implies points@[a] < points@[b] by {
                    if b < i {
                        assert(points@[a] == before[a]);
                        assert(points@[b] == before[b]);
                    } else if a < i {
                        assert(points@[a] == before[a]);
                        assert(points@[b] == before[b + 1]);
                    } else {
                        assert(points@[a] == before[a + 1]);
                        assert(points@[b] == before[b + 1]);
                    }
                }
                assert forall|x: u64| points@.contains(x) <==> (before.contains(x) && x != t) by {
                    if before.contains(x) && x != t {
                        let k = choose|k: int| 0 <= k < before.len() && before[k] == x;
                        if k < i {
                            assert(points@[k] == x);
                        } else {
                            assert(k != i);
                            assert(points@[k - 1] == x);
                        }
                    }
                    if points@.contains(x) {
                        let k = choose|k: int| 0 <= k < points@.len() && points@[k] == x;
                        if k < i {
                            assert(before[k] == x);
                            assert(before[k] < before[i as int]);
                        } else {
                            assert(before[k + 1] == x);
                            assert(before[i as int] < before[k + 1]);
                        }
                    }
                }
            }
        },
    }
}


/// A book's levels at one instant: each side as `(tick, size)` pairs, sizes
/// as single-precision bit patterns.
pub struct Snapshot {
    /// Market asset
    pub market: Option<Asset>,
    /// Secondary asset
    pub asset: Option<Asset>,
    /// Bid side levels
    pub bids: Vec<(u64, u32)>,
    /// Ask side levels
    pub asks: Vec<(u64, u32)>,
}

/// Order-book state of one instrument.
pub struct Book {
    /// Market asset
    pub market: Option<Asset>,
    /// Secondary asset
    pub asset: Option<Asset>,
    /// Starting time, in milliseconds since the Unix epoch
    pub start_ts: i64,
    /// Number of tick indices that `initialize` allocates
    pub price_levels: usize,
    /// Start sequence count
    pub start_seq: u64,
    /// Best bid (as a tick index); zero while there is no bid
    pub best_bid: u64,
    /// Best ask (as a tick index); zero while there is no ask
    pub best_ask: u64,
    /// Size at the best bid
    pub best_bid_size: u32,
    /// Size at the best ask
    pub best_ask_size: u32,
    /// Occupied bid ticks, ascending
    pub bid_price_points: Vec<u64>,
    /// Occupied ask ticks, ascending
    pub ask_price_points: Vec<u64>,
    /// Size resting at each tick index, if any
    pub state: Vec<Option<u32>>,
}

/// The size an optional level holds, zero for none.
pub open spec fn size_or_zero(o: Option<u32>) -> u32 {
    match o {
        Some(s) => s,
        None => 0,
    }
}

impl View for Book {
    type V = BookModel;

    open spec fn view(&self) -> BookModel {
        BookModel {
            levels: self.state@.len(),
            bids: self.side_map(self.bid_price_points@),
            asks: self.side_map(self.ask_price_points@),
        }
    }
}

impl Book {
    /// The sizes found in `state` at the given ticks.
    pub open spec fn side_map(&self, points: Seq<u64>) -> Map<u64, u32> {
        Map::new(|t: u64| points.contains(t), |t: u64| size_or_zero(self.state@[t as int]))
    }

    /// The ticks ascend strictly and each is an occupied index of `state`.
    pub open spec fn points_in_state(&self, points: Seq<u64>) -> bool {
        &&& strictly_ascending(points)
        &&& forall|x: u64|
            #[trigger] points.contains(x) ==> (x as int) < self.state@.len() && self.state@[x as int].is_some()
    }

    /// The best fields name the highest bid and the lowest ask with their
    /// sizes, or zero for a side that is empty.
    pub open spec fn bests_ok(&self) -> bool {
        let b = self.bid_price_points@;
        let a = self.ask_price_points@;
        &&& b.len() > 0 ==> self.best_bid == b.last() && self.state@[b.last() as int] == Some(
            self.best_bid_size,
        )
        &&& b.len() == 0 ==> self.best_bid == 0 && self.best_bid_size == 0
        &&& a.len() > 0 ==> self.best_ask == a[0] && self.state@[a[0] as int] == Some(
            self.best_ask_size,
        )
        &&& a.len() == 0 ==> self.best_ask == 0 && self.best_ask_size == 0
    }

    /// Well-formedness: each side's ticks ascend and are occupied, every occupied
    /// tick belongs to a side, every bid lies below every ask, and the best
    /// fields describe the innermost level of each side.
    pub open spec fn wf(&self) -> bool {
        let b = self.bid_price_points@;
        let a = self.ask_price_points@;
        &&& self.points_in_state(b)
        &&& self.points_in_state(a)
        &&& forall|t: int|
            0 <= t < self.state@.len() && #[trigger] self.state@[t].is_some() ==> b.contains(
                t as u64,
            ) || a.contains(t as u64)
        &&& b.len() > 0 && a.len() > 0 ==> b.last() < a[0]
        &&& self.bests_ok()
    }

    /// The fields that updates leave alone.
    pub open spec fn same_settings(&self, other: &Book) -> bool {
        &&& self.market == other.market
        &&& self.asset == other.asset
        &&& self.start_ts == other.start_ts
        &&& self.price_levels == other.price_levels
        &&& self.start_seq == other.start_seq
    }

    /// The crossing test of the model is the comparison with the innermost
    /// level of the opposite side.
    proof fn lemma_crosses(&self, tick: u64, is_bid: bool)
        requires
            self.wf(),
        ensures
            is_bid ==> (crosses(self@, tick, true) <==> (self.ask_price_points@.len() > 0
                && self.ask_price_points@[0] <= tick)),
            !is_bid ==> (crosses(self@, tick, false) <==> (self.bid_price_points@.len() > 0
                && tick <= self.bid_price_points@.last())),
    {
        let b = self.bid_price_points@;
        let a = self.ask_price_points@;
        if a.len() > 0 {
            assert(a.contains(a[0]));
            assert(self@.asks.contains_key(a[0]));
        }
        if b.len() > 0 {
            assert(b.contains(b.last()));
            assert(self@.bids.contains_key(b.last()));
        }
        if is_bid && crosses(self@, tick, true) {
            let w = choose|w: u64| self@.asks.contains_key(w) && w <= tick;
            lemma_ascending_bounds(a, w);
        }
        if !is_bid && crosses(self@, tick, false) {
            let w = choose|w: u64| self@.bids.contains_key(w) && tick <= w;
            lemma_ascending_bounds(b, w);
        }
    }

    /// Rests `size` at `tick` on one side, unless the tick is out of range or
    /// the level would cross the other side.
    fn place(&mut self, tick: u64, size: u32, is_bid: bool)
        requires
            old(self).wf(),
        ensures
            final(self).wf(),
            final(self)@ == placed(old(self)@, tick, size, is_bid),
            final(self).same_settings(old(self)),
    {
        let n = self.state.len();
        if tick >= n as u64 {
            return;
        }
        proof {
            self.lemma_crosses(tick, is_bid);
        }
        let ghost b0 = self.bid_price_points@;
        let ghost a0 = self.ask_price_points@;
        let ghost s0 = self.state@;
        let ghost m0 = self@;
        if is_bid {
            if self.ask_price_points.len() > 0 && tick >= self.ask_price_points[0] {
                return;
            }
            self.state.set(tick as usize, Some(size));
            insert_point(&mut self.bid_price_points, tick);
            proof {
                assert forall|x: u64| a0.contains(x) implies x != tick by {
                    lemma_ascending_bounds(a0, x);
                }
            }
            self.refresh_bests();
            proof {
                let b1 = self.bid_price_points@;
                let s1 = self.state@;
                assert forall|x: u64| b1.contains(x) implies (x as int) < s1.len() && s1[x as int].is_some() by {
                    if x != tick {
                        assert(b0.contains(x));
                    }
                }
                assert forall|t: int| 0 <= t < s1.len() && #[trigger] s1[t].is_some() implies b1.contains(t as u64) || a0.contains(t as u64) by {
                    if t != tick as int {
                        assert(s0[t].is_some());
                    }
                }
                if b1.len() > 0 && a0.len() > 0 {
                    assert(b1.contains(b1.last()));
                    if b1.last() != tick {
                        assert(b0.contains(b1.last()));
                        lemma_ascending_bounds(b0, b1.last());
                    }
                }
                assert(self@.bids =~= m0.bids.insert(tick, size));
                assert(self@.asks =~= m0.asks);
            }
        } else {
            if self.bid_price_points.len() > 0 && tick <= self.bid_price_points[self.bid_price_points.len() - 1] {
                return;
            }
            self.state.set(tick as usize, Some(size));
            insert_point(&mut self.ask_price_points, tick);
            proof {
                assert forall|x: u64| b0.contains(x) implies x != tick by {
                    lemma_ascending_bounds(b0, x);
                }
            }
            self.refresh_bests();
            proof {
                let a1 = self.ask_price_points@;
                let s1 = self.state@;
                assert forall|x: u64| a1.contains(x) implies (x as int) < s1.len() && s1[x as int].is_some() by {
                    if x != tick {
                        assert(a0.contains(x));
                    }
                }
                assert forall|t: int| 0 <= t < s1.len() && #[trigger] s1[t].is_some() implies b0.contains(t as u64) || a1.contains(t as u64) by {
                    if t != tick as int {
                        assert(s0[t].is_some());
                    }
                }
                if b0.len() > 0 && a1.len() > 0 {
                    assert(a1.contains(a1[0]));
                    if a1[0] != tick {
                        assert(a0.contains(a1[0]));
                        lemma_ascending_bounds(a0, a1[0]);
                    }
                }
                assert(self@.asks =~= m0.asks.insert(tick, size));
                assert(self@.bids =~= m0.bids);
            }
        }
    }

    /// Clears `tick` on one side; a tick that side does not hold is left
    /// alone, whatever else rests there.
    fn clear_level(&mut self, tick: u64, is_bid: bool)
        requires
            old(self).wf(),
        ensures
            final(self).wf(),
            final(self)@ == removed(old(self)@, tick, is_bid),
            final(self).same_settings(old(self)),
    {
        let ghost b0 = self.bid_price_points@;
        let ghost a0 = self.ask_price_points@;
        let ghost s0 = self.state@;
        let ghost m0 = self@;
        let _levels = self.state.len();
        let found = if is_bid {
            find_point(&self.bid_price_points, tick)
        } else {
            find_point(&self.ask_price_points, tick)
        };
        if found.is_none() {
            proof {
                if is_bid {
                    assert(self@.bids =~= m0.bids.remove(tick));
                } else {
                    assert(self@.asks =~= m0.asks.remove(tick));
                }
            }
            return;
        }
        proof {
            if is_bid {
                assert(b0.contains(tick));
            } else {
                assert(a0.contains(tick));
            }
        }
        self.state.set(tick as usize, None);
        if is_bid {
            remove_point(&mut self.bid_price_points, tick);
            proof {
                assert forall|x: u64| a0.contains(x) implies x != tick by {
                    lemma_ascending_bounds(a0, x);
                    lemma_ascending_bounds(b0, tick);
                }
            }
        } else {
            remove_point(&mut self.ask_price_points, tick);
            proof {
                assert forall|x: u64| b0.contains(x) implies x != tick by {
                    lemma_ascending_bounds(b0, x);
                    lemma_ascending_bounds(a0, tick);
                }
            }
        }
        proof {
            let b1 = self.bid_price_points@;
            let a1 = self.ask_price_points@;
            let s1 = self.state@;
            assert forall|x: u64| b1.contains(x) implies (x as int) < s1.len() && s1[x as int].is_some() by {
                assert(b0.contains(x));
            }
            assert forall|x: u64| a1.contains(x) implies (x as int) < s1.len() && s1[x as int].is_some() by {
                assert(a0.contains(x));
            }
            assert forall|t: int| 0 <= t < s1.len() && #[trigger] s1[t].is_some() implies b1.contains(t as u64) || a1.contains(t as u64) by {
                assert(s0[t].is_some());
            }
            if b1.len() > 0 && a1.len() > 0 {
                assert(b1.contains(b1.last()));
                assert(a1.contains(a1[0]));
                assert(b0.contains(b1.last()));
                assert(a0.contains(a1[0]));
                lemma_ascending_bounds(b0, b1.last());
                lemma_ascending_bounds(a0, a1[0]);
            }
        }
        self.refresh_bests();
        proof {
            if is_bid {
                assert(self@.bids =~= m0.bids.remove(tick));
                assert(self@.asks =~= m0.asks);
            } else {
                assert(self@.asks =~= m0.asks.remove(tick));
                assert(self@.bids =~= m0.bids);
            }
        }
    }

    /// Applies one update `(tick, size, is_bid)`.
    fn apply_update(&mut self, tick: u64, size: u32, is_bid: bool)
        requires
            old(self).wf(),
        ensures
            final(self).wf(),
            final(self)@ == applied(old(self)@, (tick, size, is_bid)),
            final(self).same_settings(old(self)),
    {
        if size_is_zero(size) {
            self.clear_level(tick, is_bid);
        } else {
            self.place(tick, size, is_bid);
        }
    }

    /// Applies updates `(tick, size, is_bid)` in order. A zero size cancels the
    /// level; any other size places or replaces it. An update for a tick out
    /// of range, or one whose level would cross the other side, is skipped.
    pub fn new_state(&mut self, updates: &Vec<(u64, u32, bool)>)
        requires
            old(self).wf(),
        ensures
            final(self).wf(),
            final(self)@ == applied_all(old(self)@, updates@),
            final(self).same_settings(old(self)),
    {
        let mut i: usize = 0;
        while i < updates.len()
            invariant
                i <= updates@.len(),
                self.wf(),
                self@ == applied_all(old(self)@, updates@.subrange(0, i as int)),
                self.same_settings(old(self)),
            decreases updates@.len() - i,
        {
            let (tick, size, is_bid) = updates[i];
            self.apply_update(tick, size, is_bid);
            proof {
                assert(updates@.subrange(0, i + 1).drop_last() =~= updates@.subrange(0, i as int));
            }
            i += 1;
        }
        proof {
            assert(updates@.subrange(0, updates@.len() as int) =~= updates@);
        }
    }

    /// Builds the book from a snapshot: every level starts out empty, then the
    /// snapshot's bids and asks are placed in order. A level out of range, or
    /// one that would cross the bids already placed, is skipped.
    pub fn initialize(&mut self, snapshot: &Snapshot)
        ensures
            final(self).wf(),
            final(self)@ == placed_all(
                placed_all(empty_model(old(self).price_levels as nat), snapshot.bids@, true),
                snapshot.asks@,
                false,
            ),
            final(self).same_settings(old(self)),
    {
        self.state = vec![None; self.price_levels];
        self.bid_price_points = Vec::new();
        self.ask_price_points = Vec::new();
        self.best_bid = 0;
        self.best_bid_size = 0;
        self.best_ask = 0;
        self.best_ask_size = 0;
        proof {
            assert forall|t: int| 0 <= t < self.state@.len() implies self.state@[t].is_none() by {
                assert(cloned::<Option<u32>>(None, self.state@[t]));
            }
            assert(self@.bids =~= Map::empty());
            assert(self@.asks =~= Map::empty());
        }
        let mut i: usize = 0;
        while i < snapshot.bids.len()
            invariant
                i <= snapshot.bids@.len(),
                self.wf(),
                self@ == placed_all(
                    empty_model(old(self).price_levels as nat),
                    snapshot.bids@.subrange(0, i as int),
                    true,
                ),
                self.same_settings(old(self)),
            decreases snapshot.bids@.len() - i,
        {
            let (tick, size) = snapshot.bids[i];
            self.place(tick, size, true);
            proof {
                assert(snapshot.bids@.subrange(0, i + 1).drop_last() =~= snapshot.bids@.subrange(
                    0,
                    i as int,
                ));
            }
            i += 1;
        }
        proof {
            assert(snapshot.bids@.subrange(0, snapshot.bids@.len() as int) =~= snapshot.bids@);
        }
        let ghost with_bids = self@;
        let mut j: usize = 0;
        while j < snapshot.asks.len()
            invariant
                j <= snapshot.asks@.len(),
                self.wf(),
                self@ == placed_all(with_bids, snapshot.asks@.subrange(0, j as int), false),
                self.same_settings(old(self)),
            decreases snapshot.asks@.len() - j,
        {
            let (tick, size) = snapshot.asks[j];
            self.place(tick, size, false);
            proof {
                assert(snapshot.asks@.subrange(0, j + 1).drop_last() =~= snapshot.asks@.subrange(
                    0,
                    j as int,
                ));
            }
            j += 1;
        }
        proof {
            assert(snapshot.asks@.subrange(0, snapshot.asks@.len() as int) =~= snapshot.asks@);
        }
    }

    /// The `(tick, size)` pairs at the given ticks.
    fn levels_at(&self, points: &Vec<u64>) -> (r: Vec<(u64, u32)>)
        requires
            self.points_in_state(points@),
        ensures
            ticks_ascending(r@),
            levels_of(r@) == self.side_map(points@),
    {
        let mut r: Vec<(u64, u32)> = Vec::new();
        let mut i: usize = 0;
        while i < points.len()
            invariant
                i <= points@.len(),
                self.points_in_state(points@),
                r@.len() == i,
                forall|j: int| #![trigger r@[j]] 0 <= j < i ==> r@[j] == (points@[j], size_or_zero(self.state@[points@[j] as int])),
            decreases points@.len() - i,
        {
            let t = points[i];
            assert(points@.contains(t));
            let _levels = self.state.len();
            let cur: Option<u32> = self.state[t as usize];
            let size = match cur {
                Some(s) => s,
                None => 0,
            };
            let ghost before = r@;
            r.push((t, size));
            proof {
                assert forall|j: int| #![trigger r@[j]] 0 <= j < i + 1 implies r@[j] == (points@[j], size_or_zero(self.state@[points@[j] as int])) by {
                    if j < i {
                        assert(r@[j] == before[j]);
                    }
                }
            }
            i += 1;
        }
        proof {
            assert forall|a: int, b: int| 0 <= a < b < r@.len() implies r@[a].0 < r@[b].0 by {
                assert(r@[a].0 == points@[a] && r@[b].0 == points@[b]);
            }
            lemma_levels_of_keys(r@);
            lemma_levels_of_ascending(r@);
            assert forall|k: u64| levels_of(r@).contains_key(k) <==> points@.contains(k) by {
                if points@.contains(k) {
                    let j = choose|j: int| 0 <= j < points@.len() && points@[j] == k;
                    assert(r@[j].0 == k);
                }
                if levels_of(r@).contains_key(k) {
                    let j = choose|j: int| 0 <= j < r@.len() && r@[j].0 == k;
                    assert(points@[j] == k);
                }
            }
            assert forall|k: u64| levels_of(r@).contains_key(k) implies levels_of(r@)[k] == self.side_map(points@)[k] by {
                let j = choose|j: int| 0 <= j < r@.len() && r@[j].0 == k;
                assert(r@[j] == (points@[j], size_or_zero(self.state@[points@[j] as int])));
            }
            assert(levels_of(r@) =~= self.side_map(points@));
        }
        r
    }

    /// The current levels of both sides, each in ascending tick order.
    pub fn get_snapshot(&self) -> (r: Snapshot)
        requires
            self.wf(),
        ensures
            r.market == self.market,
            r.asset == self.asset,
            ticks_ascending(r.bids@),
            ticks_ascending(r.asks@),
            levels_of(r.bids@) == self@.bids,
            levels_of(r.asks@) == self@.asks,
    {
        Snapshot {
            market: self.market,
            asset: self.asset,
            bids: self.levels_at(&self.bid_price_points),
            asks: self.levels_at(&self.ask_price_points),
        }
    }

    /// Sets the best bid and ask from the occupied ticks.
    fn refresh_bests(&mut self)
        requires
            old(self).points_in_state(old(self).bid_price_points@),
            old(self).points_in_state(old(self).ask_price_points@),
        ensures
            final(self).bests_ok(),
            final(self).same_settings(old(self)),
            final(self).state == old(self).state,
            final(self).bid_price_points == old(self).bid_price_points,
            final(self).ask_price_points == old(self).ask_price_points,
    {
        let _levels = self.state.len();
        let nb = self.bid_price_points.len();
        if nb == 0 {
            self.best_bid = 0;
            self.best_bid_size = 0;
        } else {
            let t = self.bid_price_points[nb - 1];
            assert(self.bid_price_points@.contains(t));
            let cur: Option<u32> = self.state[t as usize];
            self.best_bid = t;
            self.best_bid_size = match cur {
                Some(s) => s,
                None => 0,
            };
        }
        let na = self.ask_price_points.len();
        if na == 0 {
            self.best_ask = 0;
            self.best_ask_size = 0;
        } else {
            let t = self.ask_price_points[0];
            assert(self.ask_price_points@.contains(t));
            let cur: Option<u32> = self.state[t as usize];
            self.best_ask = t;
            self.best_ask_size = match cur {
                Some(s) => s,
                None => 0,
            };
        }
    }
}

/// Number of tick indices a book allocates unless told otherwise: a tick of
/// 0.0001 over prices up to 100 000.
pub const DEFAULT_PRICE_LEVELS: usize = 1_000_000_000;

impl Default for Book {
    fn default() -> (r: Book)
        ensures
            r.wf(),
            r@ == empty_model(0),
            r.price_levels == DEFAULT_PRICE_LEVELS,
            r.market.is_none(),
            r.asset.is_none(),
            r.start_seq == 0,
    {
        let r = Book {
            market: None,
            asset: None,
            start_ts: now_millis(),
            price_levels: DEFAULT_PRICE_LEVELS,
            start_seq: 0,
            best_bid: 0,
            best_ask: 0,
            best_bid_size: 0,
            best_ask_size: 0,
            bid_price_points: Vec::new(),
            ask_price_points: Vec::new(),
            state: Vec::new(),
        };
        proof {
            assert(r@.bids =~= Map::empty());
            assert(r@.asks =~= Map::empty());
        }
        r
    }
}

/// Book invariants: in a well-formed book each best level rests in `state`,
/// the best bid lies below the best ask, a tick is a bid point exactly when it
/// is occupied at or below the best bid (an ask point exactly when it is
/// occupied at or above the best ask), and no tick is on both sides.
pub proof fn lemma_book_invariants(book: &Book)
    requires
        book.wf(),
    ensures
        book.bid_price_points@.len() > 0 ==> book.state@[book.best_bid as int] == Some(
            book.best_bid_size,
        ),
        book.ask_price_points@.len() > 0 ==> book.state@[book.best_ask as int] == Some(
            book.best_ask_size,
        ),
        book.bid_price_points@.len() > 0 && book.ask_price_points@.len() > 0 ==> book.best_bid
            < book.best_ask,
        forall|p: u64|
            book.bid_price_points@.len() > 0 ==> (#[trigger] book.bid_price_points@.contains(p) <==> (
            (p as int) < book.state@.len() && book.state@[p as int].is_some() && p
                <= book.best_bid)),
        forall|p: u64|
            book.ask_price_points@.len() > 0 ==> (#[trigger] book.ask_price_points@.contains(p) <==> (
            (p as int) < book.state@.len() && book.state@[p as int].is_some() && p
                >= book.best_ask)),
        forall|p: u64|
            !(#[trigger] book.bid_price_points@.contains(p) && book.ask_price_points@.contains(p)),
{
    let b = book.bid_price_points@;
    let a = book.ask_price_points@;
    assert forall|p: u64| b.len() > 0 implies (#[trigger] b.contains(p) <==> ((p as int)
        < book.state@.len() && book.state@[p as int].is_some() && p <= book.best_bid)) by {
        if b.contains(p) {
            lemma_ascending_bounds(b, p);
        }
        if (p as int) < book.state@.len() && book.state@[p as int].is_some() && p <= book.best_bid {
            if a.contains(p) {
                lemma_ascending_bounds(a, p);
            }
        }
    }
    assert forall|p: u64| a.len() > 0 implies (#[trigger] a.contains(p) <==> ((p as int)
        < book.state@.len() && book.state@[p as int].is_some() && p >= book.best_ask)) by {
        if a.contains(p) {
            lemma_ascending_bounds(a, p);
        }
        if (p as int) < book.state@.len() && book.state@[p as int].is_some() && p >= book.best_ask {
            if b.contains(p) {
                lemma_ascending_bounds(b, p);
            }
        }
    }
    assert forall|p: u64| !(#[trigger] b.contains(p) && a.contains(p)) by {
        if b.contains(p) && a.contains(p) {
            lemma_ascending_bounds(b, p);
            lemma_ascending_bounds(a, p);
        }
    }
}

/// Idempotent removal: a zero-size update applied twice leaves the book as
/// applying it once does.
pub proof fn lemma_removal_idempotent(m: BookModel, tick: u64, size: u32, is_bid: bool)
    requires
        is_zero_size(size),
    ensures
        applied(applied(m, (tick, size, is_bid)), (tick, size, is_bid)) == applied(
            m,
            (tick, size, is_bid),
        ),
{
    let once = applied(m, (tick, size, is_bid));
    if is_bid {
        assert(once.bids.remove(tick) =~= once.bids);
    } else {
        assert(once.asks.remove(tick) =~= once.asks);
    }
}

} // verus!
