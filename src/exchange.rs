//! Exchanges, the assets they list, and how an asset pair is written on each.

use vstd::prelude::*;

use crate::text::texts;

verus! {

/// Complete list of the exchanges that are supported. This also identifies
/// where a piece of data originated.
#[derive(Clone, Copy, Debug, PartialEq, Eq, Structural)]
pub enum Exchange {
    /// Poloniex exchange
    Poloniex,
    /// GDAX (Coinbase) exchange
    GDAX,
    /// BitMEX exchange
    BitMEX,
}

/// Whether the exchange writes the first asset of a pair first.
pub open spec fn spec_market_first(e: Exchange) -> bool {
    match e {
        Exchange::Poloniex => true,
        Exchange::GDAX => true,
        Exchange::BitMEX => false,
    }
}

/// The text placed between the two tickers of a pair.
pub open spec fn spec_separator(e: Exchange) -> Seq<char> {
    match e {
        Exchange::Poloniex => "-"@,
        Exchange::GDAX => "-"@,
        Exchange::BitMEX => ""@,
    }
}

impl Exchange {
    /// Whether the exchange writes a pair's first asset first (GDAX writes
    /// `[BTC, USD]` as `BTC-USD`) or its second first (BitMEX: `USDBTC`).
    pub fn market_first(&self) -> (r: bool)
        ensures
            r == spec_market_first(*self),
    {
        match self {
            Exchange::Poloniex => true,
            Exchange::GDAX => true,
            Exchange::BitMEX => false,
        }
    }

    /// The separator written between the two tickers of a pair; an exchange
    /// that writes none has an empty one.
    pub fn asset_separator(&self) -> (r: String)
        ensures
            r@ == spec_separator(*self),
    {
        match self {
            Exchange::Poloniex => String::from_str("-"),
            Exchange::GDAX => String::from_str("-"),
            Exchange::BitMEX => String::from_str(""),
        }
    }

    /// How the exchange writes `asset`, where it lists it at all (Bitcoin is
    /// `BTC` on Poloniex but `XBT` on BitMEX).
    pub fn normalize_asset(&self, asset: Asset) -> (r: Option<String>)
        ensures
            match r {
                Some(s) => spec_normalized(*self, asset) == Some(s@),
                None => spec_normalized(*self, asset).is_none(),
            },
    {
        match self {
            Exchange::Poloniex => match asset {
                Asset::BTC => Some(String::from_str("BTC")),
                Asset::ETH => Some(String::from_str("ETH")),
                Asset::LTC => Some(String::from_str("LTC")),
                Asset::USDT => Some(String::from_str("USDT")),
                _ => None,
            },
            Exchange::GDAX => match asset {
                Asset::BTC => Some(String::from_str("BTC")),
                Asset::ETH => Some(String::from_str("ETH")),
                Asset::LTC => Some(String::from_str("LTC")),
                _ => None,
            },
            Exchange::BitMEX => match asset {
                Asset::BTC => Some(String::from_str("XBT")),
                Asset::ETH => Some(String::from_str("ETH")),
                Asset::LTC => Some(String::from_str("LTC")),
                Asset::USD => Some(String::from_str("USD")),
                _ => None,
            },
        }
    }

    /// Whether the exchange trades plainly between buyers and sellers, without
    /// contracts.
    pub fn supports_normal(&self) -> (r: bool)
        ensures
            r == !(*self == Exchange::BitMEX),
    {
        match self {
            Exchange::BitMEX => false,
            Exchange::GDAX => true,
            Exchange::Poloniex => true,
        }
    }

    /// Whether the exchange lists options.
    pub fn supports_options(&self) -> (r: bool)
        ensures
            r == (*self == Exchange::BitMEX),
    {
        match self {
            Exchange::BitMEX => true,
            Exchange::GDAX => false,
            Exchange::Poloniex => false,
        }
    }

    /// Whether the exchange lists futures.
    pub fn supports_futures(&self) -> (r: bool)
        ensures
            r == (*self == Exchange::BitMEX),
    {
        match self {
            Exchange::BitMEX => true,
            Exchange::GDAX => false,
            Exchange::Poloniex => false,
        }
    }
}

/// How an exchange writes an asset, if it lists it.
pub open spec fn spec_normalized(e: Exchange, a: Asset) -> Option<Seq<char>> {
    match e {
        Exchange::Poloniex => match a {
            Asset::BTC => Some("BTC"@),
            Asset::ETH => Some("ETH"@),
            Asset::LTC => Some("LTC"@),
            Asset::USDT => Some("USDT"@),
            _ => None,
        },
        Exchange::GDAX => match a {
            Asset::BTC => Some("BTC"@),
            Asset::ETH => Some("ETH"@),
            Asset::LTC => Some("LTC"@),
            _ => None,
        },
        Exchange::BitMEX => match a {
            Asset::BTC => Some("XBT"@),
            Asset::ETH => Some("ETH"@),
            Asset::LTC => Some("LTC"@),
            Asset::USD => Some("USD"@),
            _ => None,
        },
    }
}

/// What every exchange feed offers.
pub trait AssetExchange: Sized {
    /// The settings an exchange feed starts from.
    fn default_settings() -> Self;

    /// Takes in an order-book snapshot.
    fn snapshot<T>(&self, snap: T);

    /// Starts collecting data, from the given settings or else the defaults.
    fn run(settings: Option<&Self>);
}

/// Assets that are currently supported, crypto and fiat alike. Each carries
/// a canonical upper-case ticker.
#[derive(Clone, Copy, Debug, PartialEq, Eq, Structural)]
pub enum Asset {
    /// Bitcoin
    BTC,
    /// Ethereum
    ETH,
    /// Litecoin
    LTC,
    /// Tether
    USDT,
    /// United States Dollar
    USD,
    /// Japanese Yen
    JPY,
    /// Chinese Yuan
    CNY,
    /// Korean Won
    KRW,
    /// Euro
    EUR,
    /// Great British Pound-Sterling
    GBP,
    /// Canadian Dollar
    CAD,
    /// Australian Dollar
    AUD,
}

/// The canonical ticker of an asset.
pub open spec fn ticker(a: Asset) -> Seq<char> {
    match a {
        Asset::BTC => "BTC"@,
        Asset::ETH => "ETH"@,
        Asset::LTC => "LTC"@,
        Asset::USDT => "USDT"@,
        Asset::USD => "USD"@,
        Asset::JPY => "JPY"@,
        Asset::CNY => "CNY"@,
        Asset::KRW => "KRW"@,
        Asset::EUR => "EUR"@,
        Asset::GBP => "GBP"@,
        Asset::CAD => "CAD"@,
        Asset::AUD => "AUD"@,
    }
}

impl Asset {
    /// The canonical ticker of the asset.
    pub fn as_static(&self) -> (r: &'static str)
        ensures
            r@ == ticker(*self),
    {
        match self {
            Asset::BTC => "BTC",
            Asset::ETH => "ETH",
            Asset::LTC => "LTC",
            Asset::USDT => "USDT",
            Asset::USD => "USD",
            Asset::JPY => "JPY",
            Asset::CNY => "CNY",
            Asset::KRW => "KRW",
            Asset::EUR => "EUR",
            Asset::GBP => "GBP",
            Asset::CAD => "CAD",
            Asset::AUD => "AUD",
        }
    }
}

/// Assets with options. Few assets have them, so they form a group of their own.
#[derive(Clone, Copy, Debug, PartialEq, Eq, Structural)]
pub enum OptionsAsset {
    /// Bitcoin options
    BTC,
    /// Ethereum options
    ETH,
}

/// Assets with futures, a group of their own for the same reason.
#[derive(Clone, Copy, Debug, PartialEq, Eq, Structural)]
pub enum FuturesAsset {
    /// Bitcoin futures
    BTC,
    /// Ethereum futures
    ETH,
}

/// A pair `[base, quote]` as an exchange writes it: the two tickers with the
/// exchange's separator between them, base first where the exchange puts the
/// market first and quote first otherwise.
pub open spec fn pair_text(base: Asset, quote: Asset, e: Exchange) -> Seq<char> {
    if spec_market_first(e) {
        ticker(base) + spec_separator(e) + ticker(quote)
    } else {
        ticker(quote) + spec_separator(e) + ticker(base)
    }
}

/// Writes `[base, quote]` as the exchange does.
fn render_pair(base: Asset, quote: Asset, exch: Exchange) -> (r: String)
    ensures
        r@ == pair_text(base, quote, exch),
{
    let (first, second) = if exch.market_first() {
        (base, quote)
    } else {
        (quote, base)
    };
    let sep = exch.asset_separator();
    let mut pair = String::from_str(first.as_static());
    pair.append(sep.as_str());
    pair.append(second.as_static());
    pair
}

/// Writes the pair `[assets[0], assets[1]]` as the exchange does.
pub fn get_asset_pair(assets: &Vec<Asset>, exch: Exchange) -> (r: String)
    requires
        assets@.len() >= 2,
    ensures
        r@ == pair_text(assets@[0], assets@[1], exch),
{
    render_pair(assets[0], assets[1], exch)
}

/// Writes each pair as the exchange does, in order.
pub fn get_batch_asset_pairs(assets: &Vec<[Asset; 2]>, exch: Exchange) -> (r: Vec<String>)
    ensures
        r@.len() == assets@.len(),
        forall|i: int|
            0 <= i < assets@.len() ==> #[trigger] r@[i]@ == pair_text(
                assets@[i][0],
                assets@[i][1],
                exch,
            ),
{
    let mut r: Vec<String> = Vec::new();
    let mut i: usize = 0;
    while i < assets.len()
        invariant
            i <= assets@.len(),
            r@.len() == i,
            forall|j: int|
                0 <= j < i ==> #[trigger] r@[j]@ == pair_text(assets@[j][0], assets@[j][1], exch),
        decreases assets@.len() - i,
    {
        let pair = &assets[i];
        r.push(render_pair(pair[0], pair[1], exch));
        i += 1;
    }
    r
}

/// The asset at each position of the declaration order.
pub open spec fn asset_at(i: int) -> Asset {
    if i == 0 {
        Asset::BTC
    } else if i == 1 {
        Asset::ETH
    } else if i == 2 {
        Asset::LTC
    } else if i == 3 {
        Asset::USDT
    } else if i == 4 {
        Asset::USD
    } else if i == 5 {
        Asset::JPY
    } else if i == 6 {
        Asset::CNY
    } else if i == 7 {
        Asset::KRW
    } else if i == 8 {
        Asset::EUR
    } else if i == 9 {
        Asset::GBP
    } else if i == 10 {
        Asset::CAD
    } else {
        Asset::AUD
    }
}

/// Number of assets.
pub const ASSET_COUNT: usize = 12;

/// Position of an asset in the declaration order.
pub open spec fn asset_position(a: Asset) -> int {
    match a {
        Asset::BTC => 0,
        Asset::ETH => 1,
        Asset::LTC => 2,
        Asset::USDT => 3,
        Asset::USD => 4,
        Asset::JPY => 5,
        Asset::CNY => 6,
        Asset::KRW => 7,
        Asset::EUR => 8,
        Asset::GBP => 9,
        Asset::CAD => 10,
        Asset::AUD => 11,
    }
}

fn nth_asset(i: usize) -> (r: Asset)
    requires
        i < ASSET_COUNT,
    ensures
        r == asset_at(i as int),
{
    if i == 0 {
        Asset::BTC
    } else if i == 1 {
        Asset::ETH
    } else if i == 2 {
        Asset::LTC
    } else if i == 3 {
        Asset::USDT
    } else if i == 4 {
        Asset::USD
    } else if i == 5 {
        Asset::JPY
    } else if i == 6 {
        Asset::CNY
    } else if i == 7 {
        Asset::KRW
    } else if i == 8 {
        Asset::EUR
    } else if i == 9 {
        Asset::GBP
    } else if i == 10 {
        Asset::CAD
    } else {
        Asset::AUD
    }
}

/// What reading `text` as a pair on `e` may give: a pair that the exchange
/// writes as `text`, or nothing when no pair is written so.
pub open spec fn parsed_pair(r: Option<[Asset; 2]>, text: Seq<char>, e: Exchange) -> bool {
    match r {
        Some(p) => pair_text(p[0], p[1], e) == text,
        None => forall|a: Asset, b: Asset| pair_text(a, b, e) != text,
    }
}

/// Reads an asset pair written as the exchange writes pairs.
pub fn parse_asset_pair(text: &str, exch: Exchange) -> (r: Option<[Asset; 2]>)
    ensures
        parsed_pair(r, text@, exch),
{
    let target = String::from_str(text);
    let mut i: usize = 0;
    while i < ASSET_COUNT
        invariant
            i <= ASSET_COUNT,
            target@ == text@,
            forall|a: Asset, b: Asset|
                asset_position(a) < i ==> #[trigger] pair_text(a, b, exch) != text@,
        decreases ASSET_COUNT - i,
    {
        let a = nth_asset(i);
        let mut j: usize = 0;
        while j < ASSET_COUNT
            invariant
                i < ASSET_COUNT,
                j <= ASSET_COUNT,
                a == asset_at(i as int),
                target@ == text@,
                forall|b: Asset| asset_position(b) < j ==> #[trigger] pair_text(a, b, exch) != text@,
            decreases ASSET_COUNT - j,
        {
            let b = nth_asset(j);
            let rendered = render_pair(a, b, exch);
            if rendered == target {
                return Some([a, b]);
            }
            proof {
                assert(asset_position(b) == j);
            }
            j += 1;
        }
        proof {
            assert forall|x: Asset, b: Asset| asset_position(x) < i + 1 implies #[trigger] pair_text(
                x,
                b,
                exch,
            ) != text@ by {
                if asset_position(x) == i {
                    assert(x == a);
                }
            }
        }
        i += 1;
    }
    proof {
        assert forall|a: Asset, b: Asset| pair_text(a, b, exch) != text@ by {
            assert(asset_position(a) < 12);
        }
    }
    None
}

/// The pub/sub channels of the exchanges that have a feed, named by each
/// exchange's lower-case key.
pub fn get_supported_exchanges() -> (r: Vec<String>)
    ensures
        texts(r@) == seq!["bitmex"@, "gdax"@],
{
    let mut r: Vec<String> = Vec::new();
    r.push(String::from_str("bitmex"));
    r.push(String::from_str("gdax"));
    proof {
        assert(texts(r@) =~= seq!["bitmex"@, "gdax"@]);
    }
    r
}

/// The BitMEX topics `{channel}:{pair}` of some channels: for each channel in
/// order, one topic per pair in order.
pub open spec fn topic_args(channels: Seq<String>, pairs: Seq<[Asset; 2]>) -> Seq<Seq<char>>
    decreases channels.len(),
{
    if channels.len() == 0 {
        Seq::empty()
    } else {
        topic_args(channels.drop_last(), pairs) + Seq::new(
            pairs.len(),
            |j: int| channels.last()@ + ":"@ + pair_text(pairs[j][0], pairs[j][1], Exchange::BitMEX),
        )
    }
}

/// The arguments of a BitMEX subscription: the channels that take no
/// argument, then each per-pair channel once for every pair.
pub fn bitmex_subscription_args(
    single_channels: &Vec<String>,
    dual_channels: &Vec<String>,
    pairs: &Vec<[Asset; 2]>,
) -> (r: Vec<String>)
    ensures
        texts(r@) == texts(single_channels@) + topic_args(dual_channels@, pairs@),
{
    let mut r: Vec<String> = Vec::new();
    let mut i: usize = 0;
    while i < single_channels.len()
        invariant
            i <= single_channels@.len(),
            texts(r@) == texts(single_channels@.subrange(0, i as int)),
        decreases single_channels@.len() - i,
    {
        let ghost before = r@;
        let c = single_channels[i].clone();
        r.push(c);
        proof {
            assert(r@ == before.push(c));
            assert(texts(r@) =~= texts(before).push(c@));
            assert(single_channels@.subrange(0, i + 1) =~= single_channels@.subrange(0, i as int).push(single_channels@[i as int]));
            assert(texts(r@) =~= texts(single_channels@.subrange(0, i + 1)));
        }
        i += 1;
    }
    proof {
        assert(single_channels@.subrange(0, single_channels@.len() as int) =~= single_channels@);
    }
    let mut k: usize = 0;
    while k < dual_channels.len()
        invariant
            k <= dual_channels@.len(),
            texts(r@) == texts(single_channels@) + topic_args(
                dual_channels@.subrange(0, k as int),
                pairs@,
            ),
        decreases dual_channels@.len() - k,
    {
        let key = &dual_channels[k];
        let ghost base = texts(r@);
        let ghost row = Seq::new(
            pairs@.len(),
            |j: int| key@ + ":"@ + pair_text(pairs@[j][0], pairs@[j][1], Exchange::BitMEX),
        );
        let mut j: usize = 0;
        while j < pairs.len()
            invariant
                j <= pairs@.len(),
                row.len() == pairs@.len(),
                forall|m: int| 0 <= m < pairs@.len() ==> #[trigger] row[m] == key@ + ":"@ + pair_text(
                    pairs@[m][0],
                    pairs@[m][1],
                    Exchange::BitMEX,
                ),
                texts(r@) == base + row.subrange(0, j as int),
            decreases pairs@.len() - j,
        {
            let pair = &pairs[j];
            let mut topic = key.clone();
            topic.append(":");
            let rendered = render_pair(pair[0], pair[1], Exchange::BitMEX);
            topic.append(rendered.as_str());
            let ghost before = r@;
            proof {
                assert(topic@ == row[j as int]);
            }
            r.push(topic);
            proof {
                assert(r@ == before.push(topic));
                assert(texts(r@) =~= texts(before).push(topic@));
                assert(row.subrange(0, j + 1) =~= row.subrange(0, j as int).push(row[j as int]));
                assert(texts(r@) =~= base + row.subrange(0, j + 1));
            }
            j += 1;
        }
        proof {
            assert(row.subrange(0, pairs@.len() as int) =~= row);
            let done = dual_channels@.subrange(0, k + 1);
            assert(done.drop_last() =~= dual_channels@.subrange(0, k as int));
            assert(done.last() == dual_channels@[k as int]);
            assert(done.last()@ == key@);
            let expected_row = Seq::new(
                pairs@.len(),
                |m: int| done.last()@ + ":"@ + pair_text(pairs@[m][0], pairs@[m][1], Exchange::BitMEX),
            );
            assert(expected_row =~= row);
            assert(topic_args(done, pairs@) == topic_args(done.drop_last(), pairs@) + expected_row);
            assert(topic_args(done, pairs@) =~= topic_args(dual_channels@.subrange(0, k as int), pairs@) + row);
            assert(texts(r@) =~= texts(single_channels@) + topic_args(done, pairs@));
        }
        k += 1;
    }
    proof {
        assert(dual_channels@.subrange(0, dual_channels@.len() as int) =~= dual_channels@);
    }
    r
}

/// Every ticker has three letters but `USDT`, which has four and ends in `T`;
/// none starts with `T` and none holds a `-`.
proof fn lemma_ticker_shape(a: Asset)
    ensures
        ticker(a).len() == 3 || (a == Asset::USDT && ticker(a).len() == 4),
        a == Asset::USDT ==> ticker(a).len() == 4 && ticker(a)[3] == 'T',
        ticker(a)[0] != 'T',
        forall|i: int| 0 <= i < ticker(a).len() ==> ticker(a)[i] != '-',
{
    reveal_strlit("BTC");
    reveal_strlit("ETH");
    reveal_strlit("LTC");
    reveal_strlit("USDT");
    reveal_strlit("USD");
    reveal_strlit("JPY");
    reveal_strlit("CNY");
    reveal_strlit("KRW");
    reveal_strlit("EUR");
    reveal_strlit("GBP");
    reveal_strlit("CAD");
    reveal_strlit("AUD");
}

/// The first three letters and the length of each ticker.
spec fn ticker_key(a: Asset) -> (char, char, char, nat) {
    match a {
        Asset::BTC => ('B', 'T', 'C', 3),
        Asset::ETH => ('E', 'T', 'H', 3),
        Asset::LTC => ('L', 'T', 'C', 3),
        Asset::USDT => ('U', 'S', 'D', 4),
        Asset::USD => ('U', 'S', 'D', 3),
        Asset::JPY => ('J', 'P', 'Y', 3),
        Asset::CNY => ('C', 'N', 'Y', 3),
        Asset::KRW => ('K', 'R', 'W', 3),
        Asset::EUR => ('E', 'U', 'R', 3),
        Asset::GBP => ('G', 'B', 'P', 3),
        Asset::CAD => ('C', 'A', 'D', 3),
        Asset::AUD => ('A', 'U', 'D', 3),
    }
}

proof fn lemma_ticker_key(a: Asset)
    ensures
        ticker_key(a) == (ticker(a)[0], ticker(a)[1], ticker(a)[2], ticker(a).len()),
{
    reveal_strlit("BTC");
    reveal_strlit("ETH");
    reveal_strlit("LTC");
    reveal_strlit("USDT");
    reveal_strlit("USD");
    reveal_strlit("JPY");
    reveal_strlit("CNY");
    reveal_strlit("KRW");
    reveal_strlit("EUR");
    reveal_strlit("GBP");
    reveal_strlit("CAD");
    reveal_strlit("AUD");
}

/// Distinct assets have distinct tickers.
proof fn lemma_ticker_injective(a: Asset, c: Asset)
    requires
        ticker(a) == ticker(c),
    ensures
        a == c,
{
    lemma_ticker_key(a);
    lemma_ticker_key(c);
    assert(ticker_key(a) == ticker_key(c));
}

/// Two tickers joined by `-` or by nothing determine both tickers.
proof fn lemma_joined_tickers(x: Asset, y: Asset, u: Asset, v: Asset, sep: Seq<char>)
    requires
        sep == "-"@ || sep == ""@,
        ticker(x) + sep + ticker(y) == ticker(u) + sep + ticker(v),
    ensures
        x == u,
        y == v,
{
    reveal_strlit("-");
    reveal_strlit("");
    lemma_ticker_shape(x);
    lemma_ticker_shape(y);
    lemma_ticker_shape(u);
    lemma_ticker_shape(v);
    let l = ticker(x) + sep + ticker(y);
    let r = ticker(u) + sep + ticker(v);
    if ticker(x).len() != ticker(u).len() {
        if ticker(x).len() == 4 {
            assert(l[3] == 'T');
            assert(r[3] != 'T');
        } else {
            assert(r[3] == 'T');
            assert(l[3] != 'T');
        }
    }
    let n = ticker(x).len() as int;
    assert(ticker(x) =~= l.subrange(0, n));
    assert(ticker(u) =~= r.subrange(0, n));
    lemma_ticker_injective(x, u);
    let m = n + sep.len();
    assert(ticker(y) =~= l.subrange(m, l.len() as int));
    assert(ticker(v) =~= r.subrange(m, r.len() as int));
    lemma_ticker_injective(y, v);
}

/// Pair rendering round trip: an exchange's rendering of a pair determines
/// the pair, so the rendered text parses back to the pair it came from.
pub proof fn lemma_pair_text_injective(a: Asset, b: Asset, c: Asset, d: Asset, e: Exchange)
    requires
        pair_text(a, b, e) == pair_text(c, d, e),
    ensures
        a == c,
        b == d,
{
    if spec_market_first(e) {
        lemma_joined_tickers(a, b, c, d, spec_separator(e));
    } else {
        lemma_joined_tickers(b, a, d, c, spec_separator(e));
    }
}

/// Reading a pair back from the way an exchange writes it gives that pair.
pub proof fn lemma_pair_round_trip(a: Asset, b: Asset, e: Exchange, r: Option<[Asset; 2]>)
    requires
        parsed_pair(r, pair_text(a, b, e), e),
    ensures
        r == Some([a, b]),
{
    match r {
        Some(p) => {
            lemma_pair_text_injective(p[0], p[1], a, b, e);
            assert(p =~= [a, b]);
        },
        None => {
            assert(pair_text(a, b, e) != pair_text(a, b, e));
        },
    }
}

} // verus!
