//! GDAX (Coinbase) feed messages: level-2 updates and matches.

use vstd::prelude::*;

use crate::text::same_text;
use crate::book::{is_zero_size, size_is_zero};
use crate::exchange::Asset;
use crate::clock::{parse_utc_millis, utc_millis_of};
use crate::delta::{
    batch_view, event, spec_event, Delta, DeltaView, FeedError, Price, REMOVE, TRADE, UPDATE,
};

verus! {

/// One change of a level-2 update: `(side, price, size)`, with price and
/// size as single-precision bit patterns.
pub struct GdaxChange {
    /// `"buy"` or `"sell"`
    pub side: String,
    /// Level price
    pub price: u32,
    /// Level size; zero removes the level
    pub size: u32,
}

/// A GDAX feed message. Which fields are present depends on its type.
pub struct GdaxMessage {
    /// Message type: `"l2update"`, `"match"`, `"last_match"`, `"snapshot"`, ...
    pub kind: String,
    /// Instrument the message applies to
    pub product_id: String,
    /// Message timestamp, as GDAX writes it
    pub time: String,
    /// Level changes of a level-2 update
    pub changes: Option<Vec<GdaxChange>>,
    /// Sequence count of a match
    pub sequence: Option<u128>,
    /// Price of a match
    pub price: Option<u32>,
    /// Size of a match
    pub size: Option<u32>,
    /// Side of a match
    pub side: Option<String>,
}

/// Timestamp format of level-2 updates (milliseconds).
pub open spec fn l2_time_format() -> Seq<char> {
    "%Y-%m-%dT%H:%M:%S.%3fZ"@
}

/// Timestamp format of matches (microseconds).
pub open spec fn match_time_format() -> Seq<char> {
    "%Y-%m-%dT%H:%M:%S.%6fZ"@
}

/// The format the message's timestamp is written in.
pub open spec fn time_format_of(msg: &GdaxMessage) -> Seq<char> {
    if msg.changes.is_some() {
        l2_time_format()
    } else {
        match_time_format()
    }
}

/// The deltas of a level-2 update: one per change, numbered from one, a
/// removal where the size is zero and an update otherwise.
pub open spec fn l2_batch(changes: Seq<GdaxChange>, symbol: Seq<char>, ts_millis: i64) -> Seq<
    DeltaView,
> {
    Seq::new(
        changes.len(),
        |i: int|
            DeltaView {
                symbol,
                price: Price::Bits(changes[i].price),
                size: changes[i].size,
                seq: (i + 1) as u32,
                event: spec_event(
                    changes[i].side@ == "buy"@,
                    if is_zero_size(changes[i].size) {
                        REMOVE
                    } else {
                        UPDATE
                    },
                ),
                ts_millis,
            },
    )
}

/// What a message decodes to, given its timestamp as parsed under the format
/// of its kind: a level-2 update gives its changes, a match (or last match)
/// one trade that keeps the low 32 bits of its sequence count, and any other
/// message nothing.
pub open spec fn spec_gdax_deltas(msg: &GdaxMessage, time: Option<i64>) -> Result<
    Seq<DeltaView>,
    FeedError,
> {
    match msg.changes {
        Some(changes) => match time {
            Some(ts) => Ok(l2_batch(changes@, msg.product_id@, ts)),
            None => Err(FeedError::BadTime),
        },
        None => if msg.kind@ == "match"@ || msg.kind@ == "last_match"@ {
            match (msg.price, msg.size, msg.side, msg.sequence) {
                (Some(price), Some(size), Some(side), Some(sequence)) => match time {
                    Some(ts) => Ok(
                        seq![
                            DeltaView {
                                symbol: msg.product_id@,
                                price: Price::Bits(price),
                                size,
                                seq: (sequence % 0x1_0000_0000) as u32,
                                event: spec_event(side@ == "buy"@, TRADE),
                                ts_millis: ts,
                            },
                        ],
                    ),
                    None => Err(FeedError::BadTime),
                },
                _ => Err(FeedError::MissingField),
            }
        } else {
            Err(FeedError::NotDeltas)
        },
    }
}

/// Decodes a message whose timestamp, parsed under the format of its kind,
/// is `time`.
pub fn gdax_deltas_at(msg: &GdaxMessage, time: Option<i64>) -> (r: Result<Vec<Delta>, FeedError>)
    requires
        match msg.changes {
            Some(c) => c@.len() < u32::MAX,
            None => true,
        },
    ensures
        batch_view(r) == spec_gdax_deltas(msg, time),
{
    match &msg.changes {
        Some(changes) => {
            let ts = match time {
                Some(ts) => ts,
                None => return Err(FeedError::BadTime),
            };
            let mut out: Vec<Delta> = Vec::new();
            let mut i: usize = 0;
            while i < changes.len()
                invariant
                    i <= changes@.len(),
                    changes@.len() < u32::MAX,
                    out@.len() == i,
                    forall|j: int|
                        0 <= j < i ==> #[trigger] out@[j]@ == l2_batch(changes@, msg.product_id@, ts)[j],
                decreases changes@.len() - i,
            {
                let c = &changes[i];
                let kind = if size_is_zero(c.size) {
                    REMOVE
                } else {
                    UPDATE
                };
                let d = Delta {
                    symbol: msg.product_id.clone(),
                    price: Price::Bits(c.price),
                    size: c.size,
                    seq: (i + 1) as u32,
                    event: event(same_text(&c.side, "buy"), kind),
                    ts_millis: ts,
                };
                let ghost before = out@;
                out.push(d);
                proof {
                    assert forall|j: int|
                        0 <= j < i + 1 implies #[trigger] out@[j]@ == l2_batch(
                        changes@,
                        msg.product_id@,
                        ts,
                    )[j] by {
                        if j < i {
                            assert(out@[j] == before[j]);
                        }
                    }
                }
                i += 1;
            }
            proof {
                assert(out@.map_values(|d: Delta| d@) =~= l2_batch(changes@, msg.product_id@, ts));
            }
            Ok(out)
        },
        None => {
            if !(same_text(&msg.kind, "match") || same_text(&msg.kind, "last_match")) {
                return Err(FeedError::NotDeltas);
            }
            match (msg.price, msg.size, &msg.side, msg.sequence) {
                (Some(price), Some(size), Some(side), Some(sequence)) => {
                    let ts = match time {
                        Some(ts) => ts,
                        None => return Err(FeedError::BadTime),
                    };
                    let d = Delta {
                        symbol: msg.product_id.clone(),
                        price: Price::Bits(price),
                        size,
                        seq: (sequence % 0x1_0000_0000) as u32,
                        event: event(same_text(side, "buy"), TRADE),
                        ts_millis: ts,
                    };
                    let mut out: Vec<Delta> = Vec::new();
                    out.push(d);
                    proof {
                        assert(out@.map_values(|d: Delta| d@) =~= seq![d@]);
                    }
                    Ok(out)
                },
                _ => Err(FeedError::MissingField),
            }
        },
    }
}

/// Decodes a message, parsing its timestamp under the format of its kind.
pub fn gdax_deltas(msg: &GdaxMessage) -> (r: Result<Vec<Delta>, FeedError>)
    requires
        match msg.changes {
            Some(c) => c@.len() < u32::MAX,
            None => true,
        },
    ensures
        batch_view(r) == spec_gdax_deltas(msg, utc_millis_of(msg.time@, time_format_of(msg))),
{
    let format = if msg.changes.is_some() {
        "%Y-%m-%dT%H:%M:%S.%3fZ"
    } else {
        "%Y-%m-%dT%H:%M:%S.%6fZ"
    };
    let time = parse_utc_millis(msg.time.as_str(), format);
    gdax_deltas_at(msg, time)
}

/// What is collected, under which name, and over which period.
#[derive(Clone)]
pub struct MetaData {
    /// Exchange name; data is stored under it
    pub exchange: String,
    /// Asset pairs to collect
    pub asset_pair: Option<Vec<[Asset; 2]>>,
    /// Start of the collection, in milliseconds since the Unix epoch
    pub start_date: Option<i64>,
    /// End of the collection, in milliseconds since the Unix epoch
    pub end_date: Option<i64>,
}

/// Settings of the GDAX feed.
#[derive(Clone)]
pub struct WSExchange {
    /// Full address to connect to
    pub host: String,
    /// Whether the snapshot message has been received
    pub snapshot_received: bool,
    /// What is collected
    pub metadata: MetaData,
    /// Channels subscribed to
    pub single_channels: Vec<String>,
}

impl WSExchange {
    /// The Coinbase feed, stored as `gdax`, for BTC/USD on the level-2 and
    /// matches channels.
    pub fn default_settings() -> (r: WSExchange)
        ensures
            r.host@ == "wss://ws-feed.pro.coinbase.com"@,
            !r.snapshot_received,
            r.metadata.exchange@ == "gdax"@,
            r.metadata.asset_pair.is_some() && r.metadata.asset_pair.unwrap()@ == seq![
                [Asset::BTC, Asset::USD],
            ],
            r.metadata.start_date.is_none() && r.metadata.end_date.is_none(),
            r.single_channels@.len() == 2,
            r.single_channels@[0]@ == "level2"@,
            r.single_channels@[1]@ == "matches"@,
    {
        let mut pairs: Vec<[Asset; 2]> = Vec::new();
        pairs.push([Asset::BTC, Asset::USD]);
        let mut channels: Vec<String> = Vec::new();
        channels.push(String::from_str("level2"));
        channels.push(String::from_str("matches"));
        let r = WSExchange {
            host: String::from_str("wss://ws-feed.pro.coinbase.com"),
            snapshot_received: false,
            metadata: MetaData {
                exchange: String::from_str("gdax"),
                asset_pair: Some(pairs),
                start_date: None,
                end_date: None,
            },
            single_channels: channels,
        };
        proof {
            assert(r.metadata.asset_pair.unwrap()@ =~= seq![[Asset::BTC, Asset::USD]]);
        }
        r
    }
}

} // verus!
