//! The normalised order-book event that every feed produces.

use vstd::prelude::*;

verus! {

/// Insertion event (a new order)
pub const INSERT: u8 = 1;

/// Order cancellation
pub const REMOVE: u8 = 2;

/// Order update (a new size)
pub const UPDATE: u8 = 4;

/// Trade event
pub const TRADE: u8 = 8;

/// Ask side order
pub const ASK: u8 = 16;

/// Bid side order
pub const BID: u8 = 32;

/// The event byte of a side and a kind: the two bits combined by `^`.
pub open spec fn spec_event(is_bid: bool, kind: u8) -> u8 {
    (if is_bid {
        BID
    } else {
        ASK
    }) ^ kind
}

/// Combines a side (`BID` or `ASK`) with a kind (`INSERT`, `REMOVE`, `UPDATE`
/// or `TRADE`).
pub fn event(is_bid: bool, kind: u8) -> (r: u8)
    ensures
        r == spec_event(is_bid, kind),
{
    (if is_bid {
        BID
    } else {
        ASK
    }) ^ kind
}

/// Whether the event byte has the trade bit.
pub fn is_trade(event: u8) -> (r: bool)
    ensures
        r == (event & TRADE == TRADE),
{
    event & TRADE == TRADE
}

/// Whether the event byte has the bid bit.
pub fn is_bid(event: u8) -> (r: bool)
    ensures
        r == (event & BID == BID),
{
    event & BID == BID
}

/// An event byte built from a side and one kind holds that side's bit and
/// that kind's bit, and no other.
pub proof fn lemma_event_bits(is_bid: bool, kind: u8)
    requires
        kind == INSERT || kind == REMOVE || kind == UPDATE || kind == TRADE,
    ensures
        spec_event(is_bid, kind) & BID == (if is_bid {
            BID
        } else {
            0
        }),
        spec_event(is_bid, kind) & ASK == (if is_bid {
            0
        } else {
            ASK
        }),
        spec_event(is_bid, kind) & 15 == kind,
        spec_event(is_bid, kind) & 0xc0 == 0,
{
    let e = spec_event(is_bid, kind);
    if is_bid {
        assert(e == 32u8 ^ kind);
        assert((32u8 ^ kind) & 32 == 32 && (32u8 ^ kind) & 16 == 0 && (32u8 ^ kind) & 15 == kind
            && (32u8 ^ kind) & 0xc0 == 0) by (bit_vector)
            requires
                kind == 1 || kind == 2 || kind == 4 || kind == 8,
        ;
    } else {
        assert(e == 16u8 ^ kind);
        assert((16u8 ^ kind) & 32 == 0 && (16u8 ^ kind) & 16 == 16 && (16u8 ^ kind) & 15 == kind
            && (16u8 ^ kind) & 0xc0 == 0) by (bit_vector)
            requires
                kind == 1 || kind == 2 || kind == 4 || kind == 8,
        ;
    }
}

/// A price as a feed delivers it.
#[derive(Clone, Copy, Debug, PartialEq, Eq, Structural)]
pub enum Price {
    /// The bit pattern of a single-precision price the exchange sent.
    Bits(u32),
    /// `units` multiples of the tick size whose single-precision bit
    /// pattern is `tick_size`.
    Ticks { units: u64, tick_size: u32 },
}

/// One normalised order-book or trade event.
pub struct Delta {
    /// Exchange-local instrument name
    pub symbol: String,
    /// Level price, in units of the quote asset
    pub price: Price,
    /// Level size (single-precision bit pattern), in units of the base
    /// asset; zero removes the level
    pub size: u32,
    /// Sequence number within its batch
    pub seq: u32,
    /// Side and kind, see `event`
    pub event: u8,
    /// Time, in milliseconds since the Unix epoch
    pub ts_millis: i64,
}

/// What a `Delta` holds, with its symbol as characters.
pub struct DeltaView {
    pub symbol: Seq<char>,
    pub price: Price,
    pub size: u32,
    pub seq: u32,
    pub event: u8,
    pub ts_millis: i64,
}

impl View for Delta {
    type V = DeltaView;

    open spec fn view(&self) -> DeltaView {
        DeltaView {
            symbol: self.symbol@,
            price: self.price,
            size: self.size,
            seq: self.seq,
            event: self.event,
            ts_millis: self.ts_millis,
        }
    }
}

/// Why a feed message yields no deltas.
#[derive(Clone, Copy, Debug, PartialEq, Eq, Structural)]
pub enum FeedError {
    /// The message carries no deltas (a snapshot, a subscription reply).
    NotDeltas,
    /// A price cannot be recovered: unknown instrument, or an encoded id
    /// that gives no positive price.
    UnknownPrice,
    /// A field the message kind needs is absent.
    MissingField,
    /// The timestamp does not parse.
    BadTime,
}

/// The views of a decoded batch.
pub open spec fn batch_view(r: Result<Vec<Delta>, FeedError>) -> Result<Seq<DeltaView>, FeedError> {
    match r {
        Ok(v) => Ok(v@.map_values(|d: Delta| d@)),
        Err(e) => Err(e),
    }
}

} // verus!
