//! BitMEX feed messages: which of them carry deltas, and how each level's
//! price is recovered from the order id that BitMEX encodes it in.

use vstd::prelude::*;

use crate::book::size_or_zero;
use crate::exchange::Asset;
use crate::tectonic::{decimal, decimal_text};
use crate::text::same_text;
use crate::delta::{batch_view, event, spec_event, Delta, DeltaView, FeedError, Price, TRADE, UPDATE};

verus! {

/// One entry of a BitMEX message's `data`.
pub struct BitmexEntry {
    /// Instrument name
    pub symbol: String,
    /// `"Buy"` or `"Sell"`
    pub side: String,
    /// Order id; the level's price is encoded in it
    pub id: Option<u64>,
    /// Level size (single-precision bit pattern); absent on removals
    pub size: Option<u32>,
}

/// A BitMEX message: `{table, action, data}`.
pub struct BitmexMessage {
    /// Channel the message comes from
    pub table: String,
    /// `"partial"` for a snapshot, `"Trade"`, `"update"`, ...
    pub action: String,
    /// Entries of the message
    pub data: Vec<BitmexEntry>,
}

/// An instrument of BitMEX's instrument table. Its position in the table is
/// the index that order ids encode prices against.
pub struct Instrument {
    /// Instrument name
    pub symbol: String,
    /// Tick size (single-precision bit pattern)
    pub tick_size: u32,
}

/// XBTUSD ids count down from this value in steps of one cent.
pub const XBTUSD_ID_BASE: u64 = 8_800_000_000;

/// Bit pattern of the single-precision `0.01`, XBTUSD's tick size.
pub const XBTUSD_TICK_SIZE: u32 = 0x3C23_D70A;

/// Ids of the instrument at index `i` count down from `i` times this value.
pub const ID_STRIDE: u64 = 100_000_000;

/// Position of the last instrument of the table named `symbol`.
pub open spec fn last_listed(instruments: Seq<Instrument>, symbol: Seq<char>) -> Option<int>
    decreases instruments.len(),
{
    if instruments.len() == 0 {
        None
    } else if instruments.last().symbol@ == symbol {
        Some(instruments.len() - 1)
    } else {
        last_listed(instruments.drop_last(), symbol)
    }
}

/// The price that order `id` of `symbol` stands for: for XBTUSD,
/// `(8_800_000_000 - id)` cents; for an instrument at index `i` of the table,
/// `(100_000_000 * i - id)` of its ticks. No price when the instrument is
/// unknown or the difference is not positive.
pub open spec fn spec_bitmex_price(symbol: Seq<char>, id: u64, instruments: Seq<Instrument>) -> Option<
    Price,
> {
    if symbol == "XBTUSD"@ {
        if id < XBTUSD_ID_BASE {
            Some(Price::Ticks { units: (XBTUSD_ID_BASE - id) as u64, tick_size: XBTUSD_TICK_SIZE })
        } else {
            None
        }
    } else {
        match last_listed(instruments, symbol) {
            Some(i) => if ID_STRIDE * i <= u64::MAX && id < ID_STRIDE * i {
                Some(Price::Ticks { units: (ID_STRIDE * i - id) as u64, tick_size: instruments[i].tick_size })
            } else {
                None
            },
            None => None,
        }
    }
}

/// The deltas of a message's entries: entries without an id are passed over,
/// the others numbered from one in order. No deltas when a price cannot be
/// recovered.
pub open spec fn bitmex_batch(
    data: Seq<BitmexEntry>,
    is_trade: bool,
    instruments: Seq<Instrument>,
    ts_millis: i64,
) -> Option<Seq<DeltaView>>
    decreases data.len(),
{
    if data.len() == 0 {
        Some(Seq::empty())
    } else {
        match bitmex_batch(data.drop_last(), is_trade, instruments, ts_millis) {
            None => None,
            Some(prev) => {
                let e = data.last();
                match e.id {
                    None => Some(prev),
                    Some(id) => match spec_bitmex_price(e.symbol@, id, instruments) {
                        None => None,
                        Some(p) => Some(
                            prev.push(
                                DeltaView {
                                    symbol: e.symbol@,
                                    price: p,
                                    size: size_or_zero(e.size),
                                    seq: (prev.len() + 1) as u32,
                                    event: spec_event(
                                        e.side@ == "Buy"@,
                                        if is_trade {
                                            TRADE
                                        } else {
                                            UPDATE
                                        },
                                    ),
                                    ts_millis,
                                },
                            ),
                        ),
                    },
                }
            },
        }
    }
}

/// What a message decodes to: nothing for a message of no table or a
/// snapshot (`partial`), else the deltas of its entries.
pub open spec fn spec_bitmex_deltas(
    msg: &BitmexMessage,
    instruments: Seq<Instrument>,
    ts_millis: i64,
) -> Result<Seq<DeltaView>, FeedError> {
    if msg.table@ == ""@ || msg.action@ == "partial"@ {
        Err(FeedError::NotDeltas)
    } else {
        match bitmex_batch(msg.data@, msg.action@ == "Trade"@, instruments, ts_millis) {
            Some(s) => Ok(s),
            None => Err(FeedError::UnknownPrice),
        }
    }
}

proof fn lemma_last_listed(instruments: Seq<Instrument>, symbol: Seq<char>)
    ensures
        match last_listed(instruments, symbol) {
            Some(i) => 0 <= i < instruments.len() && instruments[i].symbol@ == symbol,
            None => true,
        },
    decreases instruments.len(),
{
    if instruments.len() > 0 {
        lemma_last_listed(instruments.drop_last(), symbol);
    }
}

/// Position of the last instrument of the table named `symbol`.
fn find_instrument(instruments: &Vec<Instrument>, symbol: &String) -> (r: Option<usize>)
    ensures
        match r {
            Some(i) => last_listed(instruments@, symbol@) == Some(i as int),
            None => last_listed(instruments@, symbol@).is_none(),
        },
{
    let mut found: Option<usize> = None;
    let mut i: usize = 0;
    while i < instruments.len()
        invariant
            i <= instruments@.len(),
            match found {
                Some(k) => last_listed(instruments@.subrange(0, i as int), symbol@) == Some(k as int),
                None => last_listed(instruments@.subrange(0, i as int), symbol@).is_none(),
            },
        decreases instruments@.len() - i,
    {
        proof {
            assert(instruments@.subrange(0, i + 1).drop_last() =~= instruments@.subrange(0, i as int));
        }
        if instruments[i].symbol == *symbol {
            found = Some(i);
        }
        i += 1;
    }
    proof {
        assert(instruments@.subrange(0, instruments@.len() as int) =~= instruments@);
    }
    found
}

/// Recovers the price that order `id` of `symbol` stands for.
pub fn bitmex_price(symbol: &String, id: u64, instruments: &Vec<Instrument>) -> (r: Option<Price>)
    ensures
        r == spec_bitmex_price(symbol@, id, instruments@),
{
    if same_text(symbol, "XBTUSD") {
        if id < XBTUSD_ID_BASE {
            Some(Price::Ticks { units: XBTUSD_ID_BASE - id, tick_size: XBTUSD_TICK_SIZE })
        } else {
            None
        }
    } else {
        let found = find_instrument(instruments, symbol);
        proof {
            lemma_last_listed(instruments@, symbol@);
        }
        match found {
            Some(i) => match ID_STRIDE.checked_mul(i as u64) {
                Some(top) => if id < top {
                    Some(Price::Ticks { units: top - id, tick_size: instruments[i].tick_size })
                } else {
                    None
                },
                None => None,
            },
            None => None,
        }
    }
}

proof fn lemma_batch_fails_on(
    data: Seq<BitmexEntry>,
    i: int,
    is_trade: bool,
    instruments: Seq<Instrument>,
    ts_millis: i64,
)
    requires
        0 <= i <= data.len(),
        bitmex_batch(data.subrange(0, i), is_trade, instruments, ts_millis).is_none(),
    ensures
        bitmex_batch(data, is_trade, instruments, ts_millis).is_none(),
    decreases data.len() - i,
{
    if i < data.len() {
        assert(data.subrange(0, i + 1).drop_last() =~= data.subrange(0, i));
        lemma_batch_fails_on(data, i + 1, is_trade, instruments, ts_millis);
    } else {
        assert(data.subrange(0, i) =~= data);
    }
}

/// Decodes a BitMEX message received at `ts_millis`.
pub fn bitmex_deltas(msg: &BitmexMessage, instruments: &Vec<Instrument>, ts_millis: i64) -> (r:
    Result<Vec<Delta>, FeedError>)
    requires
        msg.data@.len() < u32::MAX,
    ensures
        batch_view(r) == spec_bitmex_deltas(msg, instruments@, ts_millis),
{
    if same_text(&msg.table, "") || same_text(&msg.action, "partial") {
        return Err(FeedError::NotDeltas);
    }
    let trade = same_text(&msg.action, "Trade");
    let kind = if trade {
        TRADE
    } else {
        UPDATE
    };
    let mut out: Vec<Delta> = Vec::new();
    let mut i: usize = 0;
    while i < msg.data.len()
        invariant
            i <= msg.data@.len(),
            msg.data@.len() < u32::MAX,
            out@.len() <= i,
            kind == (if trade { TRADE } else { UPDATE }),
            trade == (msg.action@ == "Trade"@),
            !(msg.table@ == ""@ || msg.action@ == "partial"@),
            bitmex_batch(msg.data@.subrange(0, i as int), trade, instruments@, ts_millis) == Some(
                out@.map_values(|d: Delta| d@),
            ),
        decreases msg.data@.len() - i,
    {
        let e = &msg.data[i];
        proof {
            assert(msg.data@.subrange(0, i + 1).drop_last() =~= msg.data@.subrange(0, i as int));
            assert(msg.data@.subrange(0, i + 1).last() == msg.data@[i as int]);
        }
        match e.id {
            None => {},
            Some(id) => match bitmex_price(&e.symbol, id, instruments) {
                None => {
                    proof {
                        let pre = msg.data@.subrange(0, i + 1);
                        assert(pre.last().id == Some(id));
                        assert(spec_bitmex_price(pre.last().symbol@, id, instruments@).is_none());
                        assert(bitmex_batch(pre, trade, instruments@, ts_millis).is_none());
                        lemma_batch_fails_on(msg.data@, i + 1, trade, instruments@, ts_millis);
                    }
                    return Err(FeedError::UnknownPrice);
                },
                Some(p) => {
                    let is_buy = same_text(&e.side, "Buy");
                    let size = match e.size {
                        Some(s) => s,
                        None => 0,
                    };
                    let d = Delta {
                        symbol: e.symbol.clone(),
                        price: p,
                        size,
                        seq: (out.len() + 1) as u32,
                        event: event(is_buy, kind),
                        ts_millis,
                    };
                    let ghost before = out@;
                    out.push(d);
                    proof {
                        assert(out@.map_values(|d: Delta| d@) =~= before.map_values(|d: Delta| d@).push(
                            d@,
                        ));
                    }
                },
            },
        }
        i += 1;
    }
    proof {
        assert(msg.data@.subrange(0, msg.data@.len() as int) =~= msg.data@);
    }
    Ok(out)
}

/// What is collected, and over which period.
#[derive(Clone)]
pub struct MetaData {
    /// Asset pairs to collect
    pub asset_pair: Option<Vec<[Asset; 2]>>,
    /// Start of the collection, in milliseconds since the Unix epoch
    pub start_date: Option<i64>,
    /// End of the collection, in milliseconds since the Unix epoch
    pub end_date: Option<i64>,
}

/// Settings of the BitMEX feed.
#[derive(Clone)]
pub struct WSExchange {
    /// Scheme and host, e.g. `wss://www.bitmex.com`
    pub host: String,
    /// Port, if the address names one
    pub port: Option<u16>,
    /// Path appended to the address, without a leading `/`
    pub conn_path: Option<String>,
    /// Whether the snapshot message has been received
    pub snapshot_received: bool,
    /// What is collected
    pub metadata: MetaData,
    /// Channels subscribed to without an argument
    pub single_channels: Vec<String>,
    /// Channels subscribed to once per asset pair
    pub dual_channels: Vec<String>,
}

/// The address to connect to: the host, then `:port` and `/path` where given.
pub open spec fn url_text(host: Seq<char>, port: Option<u16>, path: Option<Seq<char>>) -> Seq<char> {
    host + match port {
        Some(p) => ":"@ + decimal(p as nat),
        None => Seq::empty(),
    } + match path {
        Some(c) => "/"@ + c,
        None => Seq::empty(),
    }
}

impl WSExchange {
    /// The connection path's characters, if there is one.
    pub open spec fn path_text(&self) -> Option<Seq<char>> {
        match self.conn_path {
            Some(c) => Some(c@),
            None => None,
        }
    }

    /// The BitMEX realtime endpoint, the XBT/USD pair, and the order-book
    /// and trade channels.
    pub fn default_settings() -> (r: WSExchange)
        ensures
            r.host@ == "wss://www.bitmex.com"@,
            r.port.is_none(),
            r.conn_path.is_some() && r.conn_path.unwrap()@ == "realtime"@,
            !r.snapshot_received,
            r.metadata.asset_pair.is_some() && r.metadata.asset_pair.unwrap()@ == seq![
                [Asset::BTC, Asset::USD],
            ],
            r.metadata.start_date.is_none() && r.metadata.end_date.is_none(),
            r.single_channels@.len() == 0,
            r.dual_channels@.len() == 2,
            r.dual_channels@[0]@ == "orderBookL2"@,
            r.dual_channels@[1]@ == "trade"@,
    {
        let mut pairs: Vec<[Asset; 2]> = Vec::new();
        pairs.push([Asset::BTC, Asset::USD]);
        let mut dual: Vec<String> = Vec::new();
        dual.push(String::from_str("orderBookL2"));
        dual.push(String::from_str("trade"));
        let r = WSExchange {
            host: String::from_str("wss://www.bitmex.com"),
            port: None,
            conn_path: Some(String::from_str("realtime")),
            snapshot_received: false,
            metadata: MetaData { asset_pair: Some(pairs), start_date: None, end_date: None },
            single_channels: Vec::new(),
            dual_channels: dual,
        };
        proof {
            assert(r.metadata.asset_pair.unwrap()@ =~= seq![[Asset::BTC, Asset::USD]]);
        }
        r
    }

    /// The address to connect to.
    pub fn connect_url(&self) -> (r: String)
        ensures
            r@ == url_text(self.host@, self.port, self.path_text()),
    {
        let mut url = self.host.clone();
        let ghost after_host = url@;
        match self.port {
            Some(p) => {
                url.append(":");
                let digits = decimal_text(p as u32);
                url.append(digits.as_str());
            },
            None => {},
        }
        let ghost after_port = url@;
        match &self.conn_path {
            Some(c) => {
                url.append("/");
                url.append(c.as_str());
            },
            None => {},
        }
        proof {
            let port_part = match self.port {
                Some(p) => ":"@ + decimal(p as nat),
                None => Seq::<char>::empty(),
            };
            let path_part = match self.path_text() {
                Some(c) => "/"@ + c,
                None => Seq::<char>::empty(),
            };
            assert(after_port =~= self.host@ + port_part);
            assert(url@ =~= self.host@ + port_part + path_part);
        }
        url
    }
}

} // verus!
