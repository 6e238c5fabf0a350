use tickfeed::exchange::{
    bitmex_subscription_args, get_asset_pair, get_batch_asset_pairs, get_supported_exchanges,
    parse_asset_pair, Asset, Exchange,
};

#[test]
fn pair_rendering_follows_the_exchange() {
    assert_eq!(get_asset_pair(&vec![Asset::BTC, Asset::USD], Exchange::GDAX), "BTC-USD");
    assert_eq!(get_asset_pair(&vec![Asset::ETH, Asset::USDT], Exchange::Poloniex), "ETH-USDT");
    // BitMEX writes the second asset first, with no separator.
    assert_eq!(get_asset_pair(&vec![Asset::BTC, Asset::USD], Exchange::BitMEX), "USDBTC");
    assert_eq!(get_asset_pair(&vec![Asset::USDT, Asset::AUD, Asset::EUR], Exchange::BitMEX), "AUDUSDT");
}

#[test]
fn pair_rendering_holds_both_tickers_and_the_separator() {
    let all = [
        Asset::BTC, Asset::ETH, Asset::LTC, Asset::USDT, Asset::USD, Asset::JPY, Asset::CNY,
        Asset::KRW, Asset::EUR, Asset::GBP, Asset::CAD, Asset::AUD,
    ];
    for exch in [Exchange::Poloniex, Exchange::GDAX, Exchange::BitMEX] {
        let mut seen = std::collections::HashSet::new();
        for a in all {
            for b in all {
                let r = get_asset_pair(&vec![a, b], exch);
                let sep = exch.asset_separator();
                let expected = if exch.market_first() {
                    format!("{}{}{}", a.as_static(), sep, b.as_static())
                } else {
                    format!("{}{}{}", b.as_static(), sep, a.as_static())
                };
                assert_eq!(r, expected);
                // Distinct pairs give distinct renderings, so each parses back.
                assert_eq!(parse_asset_pair(&r, exch), Some([a, b]));
                assert!(seen.insert(r));
            }
        }
    }
}

#[test]
fn batch_rendering_keeps_order() {
    let pairs = vec![[Asset::BTC, Asset::USD], [Asset::ETH, Asset::USD], [Asset::LTC, Asset::USD]];
    assert_eq!(get_batch_asset_pairs(&pairs, Exchange::GDAX), vec!["BTC-USD", "ETH-USD", "LTC-USD"]);
    assert!(get_batch_asset_pairs(&vec![], Exchange::BitMEX).is_empty());
}

#[test]
fn exchange_attributes() {
    assert!(Exchange::GDAX.market_first() && Exchange::Poloniex.market_first());
    assert!(!Exchange::BitMEX.market_first());
    assert_eq!(Exchange::GDAX.asset_separator(), "-");
    assert_eq!(Exchange::BitMEX.asset_separator(), "");
    assert!(Exchange::GDAX.supports_normal() && !Exchange::BitMEX.supports_normal());
    assert!(Exchange::BitMEX.supports_options() && !Exchange::Poloniex.supports_options());
    assert!(Exchange::BitMEX.supports_futures() && !Exchange::GDAX.supports_futures());
}

#[test]
fn asset_normalisation() {
    assert_eq!(Exchange::BitMEX.normalize_asset(Asset::BTC), Some("XBT".to_string()));
    assert_eq!(Exchange::BitMEX.normalize_asset(Asset::USD), Some("USD".to_string()));
    assert_eq!(Exchange::Poloniex.normalize_asset(Asset::USDT), Some("USDT".to_string()));
    assert_eq!(Exchange::GDAX.normalize_asset(Asset::ETH), Some("ETH".to_string()));
    assert_eq!(Exchange::GDAX.normalize_asset(Asset::USDT), None);
    assert_eq!(Exchange::Poloniex.normalize_asset(Asset::JPY), None);
}

#[test]
fn bitmex_subscription_topics() {
    let args = bitmex_subscription_args(
        &vec!["instrument".to_string()],
        &vec!["orderBookL2".to_string(), "trade".to_string()],
        &vec![[Asset::BTC, Asset::USD], [Asset::ETH, Asset::USD]],
    );
    assert_eq!(
        args,
        vec!["instrument", "orderBookL2:USDBTC", "orderBookL2:USDETH", "trade:USDBTC", "trade:USDETH"]
    );
}

#[test]
fn supported_channels() {
    assert_eq!(get_supported_exchanges(), vec!["bitmex", "gdax"]);
}

#[test]
fn feed_default_settings() {
    let b = tickfeed::bitmex::WSExchange::default_settings();
    assert_eq!(b.connect_url(), "wss://www.bitmex.com/realtime");
    assert_eq!(b.dual_channels, vec!["orderBookL2", "trade"]);
    assert_eq!(b.metadata.asset_pair, Some(vec![[Asset::BTC, Asset::USD]]));
    let g = tickfeed::gdax::WSExchange::default_settings();
    assert_eq!(g.host, "wss://ws-feed.pro.coinbase.com");
    assert_eq!(g.metadata.exchange, "gdax");
    assert_eq!(g.single_channels, vec!["level2", "matches"]);
}

#[test]
fn connect_url_with_port_and_path() {
    let mut b = tickfeed::bitmex::WSExchange::default_settings();
    b.port = Some(8443);
    assert_eq!(b.connect_url(), "wss://www.bitmex.com:8443/realtime");
    b.conn_path = None;
    assert_eq!(b.connect_url(), "wss://www.bitmex.com:8443");
}

#[test]
fn pair_parsing() {
    assert_eq!(parse_asset_pair("BTC-USD", Exchange::GDAX), Some([Asset::BTC, Asset::USD]));
    assert_eq!(parse_asset_pair("USDBTC", Exchange::BitMEX), Some([Asset::BTC, Asset::USD]));
    assert_eq!(parse_asset_pair("USDTBTC", Exchange::BitMEX), Some([Asset::BTC, Asset::USDT]));
    assert_eq!(parse_asset_pair("BTCUSD", Exchange::GDAX), None);
    assert_eq!(parse_asset_pair("XBTUSD", Exchange::BitMEX), None);
    assert_eq!(parse_asset_pair("", Exchange::Poloniex), None);
}
