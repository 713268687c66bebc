use lead_lag_hft::ema::{DelayEmaConfig, OffsetEmaConfig, SpreadEmaConfig};
use lead_lag_hft::offset_cache::{OffsetCache, OffsetUpdateError};
use lead_lag_hft::offset_taker::{OffsetTakerStrategy, TickOutcome, TickSkip, TradeAssetConfig};
use lead_lag_hft::new_coin::{TemaDecays, Trade};
use lead_lag_hft::new_coin_strategy::{NewCoinMakerStrategy, QuoteOutcome, QuoteSkip, TradeAssetConfig as MakerAssetConfig};
use lead_lag_hft::oms::OmsError;
use lead_lag_hft::new_coin_strategy::{bk_get_trades, TradeRecord};
use lead_lag_hft::oms::{Oms, TakerContext};
use lead_lag_hft::reporter::{ReportRow, Reporter};
use lead_lag_hft::persistence::BucketBuffer;
use lead_lag_hft::strategy::{build_oms, AssetType, Strategy, StrategyError, TradedAsset};
use lead_lag_hft::theo_price::{get_theo_maker_price, get_theo_taker_price, TheoPriceError};
use lead_lag_hft::ticker::Ticker;
use lead_lag_hft::ticker_cache::TickerCache;
use lead_lag_hft::trade_rule::TradeRule;

const ONE: f64 = 100_000_000.0;
const LEAD: u64 = 1;
const LAG: u64 = 2;

fn px(x: f64) -> i64 {
    (x * ONE).round() as i64
}

fn ticker(asset: u64, bp1: f64, ap1: f64, transaction_ms: u64, receive_ms: u64) -> Ticker {
    Ticker { asset, transaction_ms, receive_ms, ap1: px(ap1), bp1: px(bp1), av1: px(1.0), bv1: px(1.0) }
}

fn cache() -> OffsetCache {
    let mut c = OffsetCache::new();
    let configs = vec![
        OffsetEmaConfig { period: "1M".to_string(), intval: 100 },
        OffsetEmaConfig { period: "5M".to_string(), intval: 100 },
    ];
    c.init(&vec![(LEAD, LAG)], &configs, 500, 500, 1_000, &vec![vec![None, None]]);
    c
}

fn tickers() -> TickerCache {
    TickerCache::new(
        SpreadEmaConfig { period: "1M".to_string(), intval: 100 },
        DelayEmaConfig { period: "1M".to_string(), intval: 100 },
    )
}

#[test]
fn stale_depth_updates_leave_the_cache_alone() {
    let mut tc = tickers();
    assert!(tc.update_ticker(&ticker(LAG, 100.0, 100.1, 1_000, 1_002), 1_005, None, None));
    let first = tc.get_entry(LAG).unwrap();
    assert!(!tc.update_ticker(&ticker(LAG, 101.0, 101.1, 1_000, 1_003), 1_200, None, None));
    assert!(!tc.update_ticker(&ticker(LAG, 101.0, 101.1, 999, 1_003), 1_200, None, None));
    assert_eq!(tc.get_entry(LAG).unwrap(), first);
    assert!(tc.update_ticker(&ticker(LAG, 101.0, 101.1, 1_001, 1_003), 1_200, None, None));
    assert_eq!(tc.get(LAG).unwrap().bp1, px(101.0));
    assert_eq!(tc.get(LEAD), None);
}

#[test]
fn first_admission_seeds_spread_and_delay() {
    let mut tc = tickers();
    assert!(tc.update_ticker(&ticker(LEAD, 100.0, 100.1, 1_000, 1_007), 1_010, Some(px(0.2) as i128), None));
    let e = tc.get_entry(LEAD).unwrap();
    assert_eq!(e.delay.delay, 7);
    assert!(e.spread.init);
    // warm-started: (599 * 0.2 + 2 * 0.1) / 601
    assert_eq!(e.spread.spread, (599 * px(0.2) as i128 + 2 * px(0.1) as i128) / 601);
}

#[test]
fn stale_lead_tick_refuses_the_offset_update() {
    let mut c = cache();
    let before = c.get_all_offset(LAG).unwrap();
    let lead = ticker(LEAD, 100.0, 100.1, 1_000, 1_501);
    let lag = ticker(LAG, 100.05, 100.2, 1_000, 1_010);
    assert_eq!(c.update(&lead, &lag, 1_600), Err(OffsetUpdateError::LeadDelay { asset: LEAD, delay: 501 }));
    assert_eq!(c.get_all_offset(LAG).unwrap(), before);
}

#[test]
fn each_offset_gate_has_its_own_reason() {
    let mut c = cache();
    let lead = ticker(LEAD, 100.0, 100.1, 1_000, 1_010);
    let slow_lag = ticker(LAG, 100.05, 100.2, 1_000, 1_600);
    assert_eq!(c.update(&lead, &slow_lag, 1_610), Err(OffsetUpdateError::LagDelay { asset: LAG, delay: 600 }));
    let lag = ticker(LAG, 100.05, 100.2, 1_000, 1_010);
    assert_eq!(c.update(&lead, &lag, 2_011), Err(OffsetUpdateError::LeadExpired { age: 1_001 }));
    let stranger = ticker(7, 100.05, 100.2, 1_000, 1_010);
    assert_eq!(c.update(&lead, &stranger, 1_020), Err(OffsetUpdateError::UnknownLag { asset: 7 }));
    assert_eq!(c.update(&lead, &lag, 1_020), Ok(()));
    let all = c.get_all_offset(LEAD).unwrap();
    assert_eq!(all.len(), 2);
    assert!(all.iter().all(|e| e.init && e.b2b == 50_000 && e.last_update_ms == 1_020));
}

#[test]
fn offsets_resolve_from_lead_or_lag() {
    let c = cache();
    assert!(c.get_offset(LAG, "1M").is_some());
    assert_eq!(c.get_offset(LEAD, "5M"), c.get_offset(LAG, "5M"));
    assert!(c.get_offset(LAG, "15M").is_none());
    assert!(c.get_offset(9, "1M").is_none());
    assert!(c.get_all_offset(9).is_none());
}

#[test]
fn theoretical_prices_follow_the_offsets() {
    let mut c = cache();
    let lead = ticker(LEAD, 100.0, 100.1, 1_000, 1_010);
    assert_eq!(get_theo_taker_price(&lead, "1M", &c), Err(TheoPriceError::OffsetNotInit { asset: LEAD }));
    assert_eq!(get_theo_taker_price(&lead, "3M", &c), Err(TheoPriceError::OffsetMissing { asset: LEAD }));
    assert_eq!(get_theo_maker_price(&lead, "3M", &c), Err(TheoPriceError::OffsetMissing { asset: LEAD }));
    let lag = ticker(LAG, 100.05, 100.2, 1_000, 1_010);
    c.update(&lead, &lag, 1_020).unwrap();
    let (ask, bid) = get_theo_taker_price(&lead, "1M", &c).unwrap();
    // (a2b + 1) * lead bid = 100.2; (b2a + 1) * lead ask ~ 100.05
    assert_eq!(ask, px(100.2) as i128);
    assert!((bid - px(100.05) as i128).abs() <= 100);
    let (mask, mbid) = get_theo_maker_price(&lead, "1M", &c).unwrap();
    assert!((mask - px(100.2) as i128).abs() <= 100);
    assert_eq!(mbid, px(100.2) as i128);
}

fn strategy() -> OffsetTakerStrategy {
    let mut s = OffsetTakerStrategy::new();
    let assets = vec![TradeAssetConfig {
        asset: LAG,
        lead_asset: LEAD,
        trading: true,
        pos_limit: px(10.0),
        pos_unit_usd: px(100.0),
        use_offset_period: "1M".to_string(),
        taker_threshold: px(0.0005),
        bias_rate: None,
    }];
    let configs = vec![OffsetEmaConfig { period: "1M".to_string(), intval: 100 }];
    s.on_init(&assets, &configs, 500, 500, 1_000, px(0.0002), &vec![vec![None]]);
    s
}

fn shared_state() -> Strategy {
    Strategy {
        tickers: tickers(),
        oms: vec![Oms::new(LAG, true, 100)],
        trade_rules: vec![(LAG, TradeRule { price_unit: px(0.01), size_unit: px(0.001) })],
    }
}

#[test]
fn lead_tick_with_a_late_lead_is_skipped() {
    let mut s = strategy();
    let mut base = shared_state();
    base.tickers.update_ticker(&ticker(LEAD, 100.0, 100.1, 1_000, 1_501), 1_501, None, None);
    base.tickers.update_ticker(&ticker(LAG, 100.05, 100.2, 1_000, 1_010), 1_501, None, None);
    match s.on_tick(&base, LEAD, 1_510) {
        TickOutcome::Skipped(skip) => assert_eq!(skip, TickSkip::LeadDelayed { asset: LEAD, delay: 501 }),
        _ => panic!("a late lead tick must not price"),
    }
}

#[test]
fn lag_tick_refreshes_offsets_then_lead_tick_prices() {
    let mut s = strategy();
    let mut base = shared_state();
    match s.on_tick(&base, 9, 1_000) {
        TickOutcome::Skipped(skip) => assert_eq!(skip, TickSkip::NotLeadOrLag { asset: 9 }),
        _ => panic!("unknown instrument"),
    }
    base.tickers.update_ticker(&ticker(LEAD, 100.0, 100.1, 1_000, 1_005), 1_006, None, None);
    base.tickers.update_ticker(&ticker(LAG, 99.9, 100.0, 1_000, 1_005), 1_006, None, None);
    match s.on_tick(&base, LAG, 1_010) {
        TickOutcome::OffsetUpdated { lag, result, offsets } => {
            assert_eq!(lag, LAG);
            assert_eq!(result, Ok(()));
            assert_eq!(offsets.len(), 1);
            assert!(offsets[0].init);
        },
        _ => panic!("a lag tick refreshes offsets"),
    }
    match s.on_tick(&base, LEAD, 1_020) {
        TickOutcome::Unpriced { lag, skip, .. } => {
            assert_eq!(lag, LAG);
            assert_eq!(skip, TickSkip::Position(StrategyError::PositionUnknown { asset: LAG }));
        },
        TickOutcome::Skipped(_) => panic!("the lag's mid price is known"),
        _ => panic!("no position yet"),
    }
    assert!(base.sync_order_position(LAG, 0, 0, vec![], vec![], vec![]));
    match s.on_tick(&base, LEAD, 1_020) {
        TickOutcome::Priced { lag, lag_mid, report, orders } => {
            assert_eq!(lag, LAG);
            assert_eq!(lag_mid, px(99.95));
            assert_eq!(report.buy_threshold, px(0.0007) as i128);
            assert!(orders.is_empty());
        },
        _ => panic!("a fresh lead tick prices the lag"),
    }
    assert_eq!(base.get_asset_usd_position(LAG), Ok(0));
    assert_eq!(base.get_asset_usd_position(LEAD), Err(StrategyError::OmsMissing { asset: LEAD }));
}

#[test]
fn persistence_buffer_flushes_on_first_write_then_by_time() {
    let mut b = BucketBuffer::new("offset".to_string());
    let first = b.record("k1", 5, 1_000).unwrap();
    assert_eq!(first, vec![("k1".to_string(), 5)]);
    assert!(b.record("k1", 6, 2_000).is_none());
    assert!(b.record("k2", 7, 3_000).is_none());
    assert!(b.record("k1", 8, 4_000).is_none());
    let batch = b.record("k3", 9, 601_000).unwrap();
    assert_eq!(batch, vec![("k1".to_string(), 8), ("k2".to_string(), 7), ("k3".to_string(), 9)]);
    assert!(b.entries.is_empty());
    assert_eq!(b.last_flush, Some(601_000));
}

#[test]
fn persistence_buffer_flushes_when_full() {
    let mut b = BucketBuffer::new("spread".to_string());
    b.record("seed", 0, 0).unwrap();
    for i in 0..1000 {
        assert!(b.record(&format!("k{}", i), i, 10).is_none());
    }
    let batch = b.record("last", 1, 11).unwrap();
    assert_eq!(batch.len(), 1001);
}

#[test]
fn global_summary_every_three_seconds() {
    let mut r = Reporter::new("inst");
    assert!(r.report_global(3_000));
    assert!(!r.report_global(5_999));
    assert!(r.report_global(6_000));
    assert_eq!(r.global_report_ms, 6_000);
}

#[test]
fn single_rows_queue_until_due() {
    let row = |m: &str| ReportRow { measurement: m.to_string(), tags: vec![], fields: vec![("x".to_string(), 1)] };
    let mut r = Reporter::new("inst");
    let out = r.add_custom_single_report_data(row("a"), 1_000).unwrap();
    assert_eq!(out.len(), 1);
    assert!(r.add_custom_single_report_data(row("b"), 1_500).is_none());
    assert!(r.add_custom_single_report_data(row("c"), 1_999).is_none());
    let out = r.add_custom_single_report_data(row("d"), 2_000).unwrap();
    let names: Vec<String> = out.iter().map(|x| x.measurement.clone()).collect();
    assert_eq!(names, vec!["b", "c", "d"]);
    assert!(r.singles.is_empty());
    assert!(r.single_report_custom_data(3_500).unwrap().is_empty());
}

#[test]
fn batch_fields_merge_key_by_key_until_due() {
    let mut r = Reporter::new("inst");
    let f = |pairs: &[(&str, i128)]| pairs.iter().map(|(k, v)| (k.to_string(), *v)).collect::<Vec<_>>();
    let first = r.add_custom_batch_report_data("m", LAG, &f(&[("a", 1)]), 1_000).unwrap();
    assert_eq!(first.len(), 1);
    assert!(r.add_custom_batch_report_data("m", LAG, &f(&[("a", 2), ("b", 3)]), 1_200).is_none());
    assert!(r.add_custom_batch_report_data("m", LEAD, &f(&[("c", 4)]), 1_300).is_none());
    assert!(r.add_custom_batch_report_data("m", LAG, &f(&[("a", 5)]), 1_400).is_none());
    assert!(r.batch_report_custom_data("m", 1_999).is_none());
    assert!(r.batch_report_custom_data("other", 5_000).is_none());
    let rows = r.batch_report_custom_data("m", 2_000).unwrap();
    assert_eq!(rows.len(), 2);
    assert_eq!(rows[0].asset, LAG);
    assert_eq!(rows[0].fields, f(&[("a", 5), ("b", 3)]));
    assert_eq!(rows[1].asset, LEAD);
    assert_eq!(rows[1].fields, f(&[("c", 4)]));
}

#[test]
fn new_prints_come_oldest_first() {
    let rec = |id: Option<u64>, t: u64| TradeRecord { id, trade: Trade { price: px(1.0), volume: px(1.0), transaction_time: t } };
    let list = vec![rec(Some(9), 90), rec(None, 85), rec(Some(8), 80), rec(Some(7), 70), rec(Some(6), 60)];
    let (trades, last) = bk_get_trades(&list, 7);
    assert_eq!(trades.iter().map(|t| t.transaction_time).collect::<Vec<_>>(), vec![80, 90]);
    assert_eq!(last, 9);
    let (none, same) = bk_get_trades(&list, 9);
    assert!(none.is_empty());
    assert_eq!(same, 9);
}

#[test]
fn shared_state_routes_intents_by_instrument() {
    let mut base = shared_state();
    let intent = TakerContext { asset: LEAD, price: Some(1), size: 1, is_market: false, max_usd_pos: 1, now_ms: 1 };
    assert_eq!(base.do_taker(intent, true).unwrap_err(), StrategyError::OmsMissing { asset: LEAD });
    assert_eq!(base.get_trade_rule(LEAD), None);
    assert!(base.get_trade_rule(LAG).is_some());
    assert!(!base.sync_order_position(LEAD, 0, 0, vec![], vec![], vec![]));
}

#[test]
fn lead_and_lag_ticks_report_what_is_missing() {
    let mut fresh = OffsetTakerStrategy::new();
    let mut base = shared_state();
    base.tickers.update_ticker(&ticker(LAG, 99.9, 100.0, 1_000, 1_005), 1_006, None, None);
    match fresh.on_tick(&base, LAG, 1_010) {
        TickOutcome::Skipped(skip) => assert_eq!(skip, TickSkip::NotLeadOrLag { asset: LAG }),
        _ => panic!("no pairs yet"),
    }
    let mut s = strategy();
    match s.on_tick(&base, LAG, 1_010) {
        TickOutcome::Skipped(skip) => assert_eq!(skip, TickSkip::LeadTickerMissing { lead: LEAD }),
        _ => panic!("the lead has no ticker"),
    }
    match s.on_tick(&base, LEAD, 1_010) {
        TickOutcome::Skipped(skip) => assert_eq!(skip, TickSkip::TickerMissing { asset: LEAD }),
        _ => panic!("the lead has no ticker"),
    }
    let mut only_lead = shared_state();
    only_lead.tickers.update_ticker(&ticker(LEAD, 100.0, 100.1, 1_000, 1_005), 1_006, None, None);
    match s.on_tick(&only_lead, LEAD, 1_010) {
        TickOutcome::Skipped(skip) => assert_eq!(skip, TickSkip::LagTickerMissing { lag: LAG }),
        _ => panic!("the lag has no ticker"),
    }
    base.tickers.update_ticker(&ticker(LEAD, 100.0, 100.1, 1_000, 1_005), 1_006, None, None);
    match s.on_tick(&base, LEAD, 1_010) {
        TickOutcome::Unpriced { lag, skip, .. } => {
            assert_eq!(lag, LAG);
            assert_eq!(skip, TickSkip::Theo(TheoPriceError::OffsetNotInit { asset: LEAD }));
        },
        _ => panic!("no offset sample yet"),
    }
    s.on_tick(&base, LAG, 1_010);
    base.sync_order_position(LAG, 0, px(2_000_000_000.0) as i128, vec![], vec![], vec![]);
    match s.on_tick(&base, LEAD, 1_020) {
        TickOutcome::Unpriced { lag, skip, .. } => {
            assert_eq!(lag, LAG);
            assert_eq!(skip, TickSkip::PositionOutOfRange { lag: LAG });
        },
        _ => panic!("position beyond the model's range"),
    }
    base.sync_order_position(LAG, 0, 0, vec![], vec![], vec![]);
    base.trade_rules = vec![];
    match s.on_tick(&base, LEAD, 1_020) {
        TickOutcome::Unpriced { lag, skip, .. } => {
            assert_eq!(lag, LAG);
            assert_eq!(skip, TickSkip::TradeRuleMissing { lag: LAG });
        },
        _ => panic!("no trade rule"),
    }
    assert_eq!(s.asset_max_pos_usd(LAG), Some(px(1000.0) as i128));
    assert_eq!(s.asset_max_pos_usd(LEAD), None);
}

#[test]
fn uninitialised_cache_skips_lag_ticks() {
    let mut s = OffsetTakerStrategy::new();
    s.pairs.push(lead_lag_hft::offset_taker::TradePair {
        lead: LEAD,
        lag: LAG,
        use_period: "1M".to_string(),
        pricing: lead_lag_hft::linear_taker::BasicLinearTaker::new(0, 0, px(100.0), px(1.0), None),
    });
    let base = shared_state();
    match s.on_tick(&base, LAG, 1_000) {
        TickOutcome::Skipped(skip) => assert_eq!(skip, TickSkip::CacheNotInit),
        _ => panic!("cache not initialised"),
    }
}

#[test]
fn order_manager_refusals_surface_through_the_shared_state() {
    let mut base = shared_state();
    let unpriced = TakerContext { asset: LAG, price: None, size: 1, is_market: false, max_usd_pos: 1, now_ms: 1 };
    assert_eq!(base.do_taker(unpriced, true).unwrap_err(), StrategyError::Oms(OmsError::MissingPrice { asset: LAG }));
}

fn maker_config() -> MakerAssetConfig {
    MakerAssetConfig {
        asset: LAG,
        trading: true,
        tau_p: "1M".to_string(),
        tau_o: "1M".to_string(),
        pos_unit_usd: px(100.0),
        pos_limit: px(5.0),
        sigma_multi: px(1.0),
        sigma_min_bps: px(20.0),
        order_min_bps_diff: px(1.0),
        order_min_tick_diff: px(1.0),
    }
}

#[test]
fn new_coin_maker_quotes_once_ready() {
    let mut s = NewCoinMakerStrategy::new();
    s.on_init(&vec![maker_config()], &vec![(None, None, None, None)]);
    assert_eq!(s.asset_max_pos_usd(LAG), Some(px(500.0) as i128));
    let mut base = shared_state();
    base.tickers.update_ticker(&ticker(LAG, 9.9, 10.1, 1_000, 1_005), 1_006, None, None);
    base.sync_order_position(LAG, 0, 0, vec![], vec![], vec![]);
    match s.on_tick(&base, LEAD, 1_010) {
        QuoteOutcome::Skipped(skip) => assert_eq!(skip, QuoteSkip::AssetUnknown { asset: LEAD }),
        _ => panic!("not configured"),
    }
    match s.on_tick(&base, LAG, 1_010) {
        QuoteOutcome::Unquoted { mid_price, sigma, skip } => {
            assert_eq!(mid_price, px(10.0));
            assert_eq!(sigma, None);
            assert_eq!(skip, QuoteSkip::ModelNotReady { asset: LAG });
        },
        _ => panic!("no trades yet"),
    }
    let full = TemaDecays { value: 100_000_000, volume: 100_000_000, value_diff: 100_000_000, volume_diff: 100_000_000 };
    let t1 = Trade { price: px(10.0), volume: px(1.0), transaction_time: 2_000 };
    let t2 = Trade { price: px(10.2), volume: px(1.0), transaction_time: 2_500 };
    assert!(s.on_trade(LAG, &t1, &full, 0));
    let p = s.assets[0].model.price_after_trade(&t2, &full).unwrap();
    let log_ratio = ((10.2 / (p as f64 / 100_000_000.0)).ln() * 100_000_000.0) as i128;
    assert!(s.on_trade(LAG, &t2, &full, log_ratio));
    assert!(!s.on_trade(LEAD, &t2, &full, 0));
    match s.on_tick(&base, LAG, 3_000) {
        QuoteOutcome::Quoted { mid_price, sigma, quotes } => {
            assert_eq!(mid_price, px(10.0));
            assert!(sigma > 0);
            assert_eq!(quotes.len(), 2);
            assert!(quotes[0].maker.price < quotes[1].maker.price);
            assert!(quotes[0].maker.size > 0 && quotes[1].maker.size < 0);
        },
        _ => panic!("the model is ready"),
    }
}

#[test]
fn spot_instruments_are_refused_for_trading() {
    let listed = vec![
        TradedAsset { asset: LAG, asset_type: AssetType::Swap, trading: true },
        TradedAsset { asset: 5, asset_type: AssetType::Future, trading: false },
    ];
    let v = build_oms(&listed, true, 250).unwrap();
    assert_eq!(v.len(), 2);
    assert!(v[0].trading && !v[1].trading);
    assert_eq!(v[1].quote_intval, 250);
    assert!(!build_oms(&listed, false, 250).unwrap()[0].trading);
    let with_spot = vec![listed[0], TradedAsset { asset: 6, asset_type: AssetType::Spot, trading: true }];
    assert_eq!(build_oms(&with_spot, true, 250).err(), Some(6));
}
