use lead_lag_hft::basic_maker::{BasicMaker, BasicMakerContext};
use lead_lag_hft::linear_taker::{BasicLinearTaker, BasicLinearTakerContext};
use lead_lag_hft::new_coin::{NewCoinMakerModel, TemaDecays, Trade};
use lead_lag_hft::oms::{MakerContext, Oms, OmsError, OpenOrder, OrderType, TakerContext};
use lead_lag_hft::tema::TemaMs;
use lead_lag_hft::ticker::Ticker;
use lead_lag_hft::trade_rule::TradeRule;

const ONE: f64 = 100_000_000.0;

fn px(x: f64) -> i64 {
    (x * ONE).round() as i64
}

fn lag_ticker(bp1: f64, ap1: f64) -> Ticker {
    Ticker { asset: 2, transaction_ms: 990, receive_ms: 995, ap1: px(ap1), bp1: px(bp1), av1: px(1.0), bv1: px(1.0) }
}

fn rule() -> TradeRule {
    TradeRule { price_unit: px(0.01), size_unit: px(0.001) }
}

fn taker_model(bias_rate: Option<i64>) -> BasicLinearTaker {
    BasicLinearTaker::new(px(0.0005), px(0.0002), px(100.0), px(10.0), bias_rate)
}

fn ready_oms(virtual_usd: f64, opens: Vec<OpenOrder>) -> Oms {
    let mut oms = Oms::new(2, true, 100);
    oms.sync_position_and_orders(px(virtual_usd) as i128, px(virtual_usd) as i128, opens, vec![], vec![]);
    oms
}

fn taker_intent(size: i128, max_usd_pos: f64, now_ms: u64) -> TakerContext {
    TakerContext {
        asset: 2,
        price: Some(px(100.13) as i128),
        size,
        is_market: false,
        max_usd_pos: px(max_usd_pos) as i128,
        now_ms,
    }
}

#[test]
fn taker_buy_fires() {
    let model = taker_model(None);
    let ctx = BasicLinearTakerContext {
        theo_bid: px(100.2) as i128,
        theo_ask: px(100.1) as i128,
        ticker: lag_ticker(99.9, 100.0),
        position_usd: 0,
        now_ms: 5_000,
    };
    let (orders, report) = model.get_taker_ctx(ctx, &rule());
    assert_eq!(report.buy_profit, px(0.002) as i128);
    assert_eq!(report.buy_threshold, px(0.0007) as i128);
    assert_eq!(orders.len(), 1);
    let o = orders[0].taker;
    assert_eq!(o.price, Some(px(100.13) as i128));
    assert!(o.size > 0);
    assert_eq!(o.size, px(0.999) as i128);
    assert!(!o.is_market);
    assert_eq!(o.max_usd_pos, px(1000.0) as i128);
    let mut oms = ready_oms(0.0, vec![]);
    let actions = oms.do_taker(o, true).unwrap();
    let req = actions.order.unwrap();
    assert_eq!(req.order_type, OrderType::Ioc);
    assert_eq!(req.price, Some(px(100.13) as i128));
    assert_eq!(oms.last_quote_ms, 5_000);
}

#[test]
fn taker_sell_fires_and_rounds_up() {
    let model = taker_model(None);
    let ctx = BasicLinearTakerContext {
        theo_bid: px(99.0) as i128,
        theo_ask: px(99.5) as i128,
        ticker: lag_ticker(100.0, 100.1),
        position_usd: 0,
        now_ms: 5_000,
    };
    let (orders, report) = model.get_taker_ctx(ctx, &rule());
    assert_eq!(report.sell_profit, px(0.005) as i128);
    assert_eq!(orders.len(), 1);
    let o = orders[0].taker;
    // 99.5 + 100 * 0.0007 = 99.57
    assert_eq!(o.price, Some(px(99.57) as i128));
    assert!(o.size < 0);
}

#[test]
fn long_position_raises_the_buy_bar() {
    let model = taker_model(Some(px(0.001)));
    let ctx = BasicLinearTakerContext {
        theo_bid: px(100.2) as i128,
        theo_ask: px(100.1) as i128,
        ticker: lag_ticker(99.9, 100.0),
        position_usd: px(200.0),
        now_ms: 5_000,
    };
    let (orders, report) = model.get_taker_ctx(ctx, &rule());
    // two units held: buy bias 0.002
    assert_eq!(report.buy_threshold, px(0.0027) as i128);
    assert_eq!(report.sell_threshold, px(0.0007) as i128);
    assert!(orders.is_empty());
}

#[test]
fn higher_theoretical_bid_never_lowers_the_buy_price() {
    let model = taker_model(None);
    let mut last_price = 0;
    let mut fired = false;
    for step in 0..40 {
        let theo = px(100.0 + step as f64 * 0.01) as i128;
        let ctx = BasicLinearTakerContext {
            theo_bid: theo,
            theo_ask: px(101.0) as i128,
            ticker: lag_ticker(99.9, 100.0),
            position_usd: 0,
            now_ms: 1,
        };
        let (orders, _) = model.get_taker_ctx(ctx, &rule());
        if fired {
            assert_eq!(orders.len(), 1);
        }
        if let Some(o) = orders.first() {
            fired = true;
            let p = o.taker.price.unwrap();
            assert!(p >= last_price);
            last_price = p;
        }
    }
    assert!(fired);
}

#[test]
fn position_cap_cancels_every_bid() {
    let opens = vec![
        OpenOrder { id: 11, price: px(99.0) as i128, size: px(1.0) as i128 },
        OpenOrder { id: 12, price: px(98.0) as i128, size: px(1.0) as i128 },
        OpenOrder { id: 13, price: px(101.0) as i128, size: -(px(1.0) as i128) },
    ];
    let mut oms = ready_oms(1100.0, opens);
    let (post, cancels) = oms.position_check(1, px(1000.0) as i128);
    assert!(!post);
    assert_eq!(cancels, vec![11, 12]);
    let actions = oms.do_taker(taker_intent(px(1.0) as i128, 1000.0, 5_000), true).unwrap();
    assert_eq!(actions.cancels, vec![11, 12]);
    assert!(actions.order.is_none());
    assert_eq!(oms.last_quote_ms, 0);
    let sell = oms.do_taker(taker_intent(-(px(1.0) as i128), 1000.0, 5_000), true).unwrap();
    assert!(sell.cancels.is_empty());
    assert!(sell.order.is_some());
}

#[test]
fn short_position_cap_cancels_every_ask() {
    let opens = vec![
        OpenOrder { id: 21, price: px(101.0) as i128, size: -(px(1.0) as i128) },
        OpenOrder { id: 22, price: px(99.0) as i128, size: px(1.0) as i128 },
    ];
    let oms = ready_oms(-1500.0, opens);
    let (post, cancels) = oms.position_check(-1, px(1000.0) as i128);
    assert!(!post);
    assert_eq!(cancels, vec![21]);
}

#[test]
fn manager_that_is_not_ready_does_nothing() {
    let mut oms = Oms::new(2, true, 100);
    let a = oms.do_taker(taker_intent(px(1.0) as i128, 1000.0, 5_000), true).unwrap();
    assert!(a.cancels.is_empty() && a.order.is_none());
    oms.sync_position_and_orders(0, 0, vec![], vec![7], vec![]);
    let a = oms.do_taker(taker_intent(px(1.0) as i128, 1000.0, 5_000), true).unwrap();
    assert!(a.cancels.is_empty() && a.order.is_none());
    oms.sync_position_and_orders(0, 0, vec![], vec![], vec![8]);
    let maker = MakerContext {
        asset: 2,
        price: px(99.0) as i128,
        size: px(1.0) as i128,
        is_post_only: true,
        is_first: false,
        max_order_num: 1,
        order_min_price_diff: px(0.05) as i128,
        max_usd_pos: px(1000.0) as i128,
        now_ms: 5_000,
    };
    let m = oms.do_maker(maker, true).unwrap();
    assert!(m.cancels.is_empty() && m.order.is_none());
    assert_eq!(oms.last_quote_ms, 0);
}

#[test]
fn posts_keep_the_quote_interval() {
    let mut oms = ready_oms(0.0, vec![]);
    assert!(oms.do_taker(taker_intent(px(1.0) as i128, 1000.0, 1_000), true).unwrap().order.is_some());
    assert!(oms.do_taker(taker_intent(px(1.0) as i128, 1000.0, 1_099), true).unwrap().order.is_none());
    assert_eq!(oms.last_quote_ms, 1_000);
    assert!(oms.do_taker(taker_intent(px(1.0) as i128, 1000.0, 1_100), true).unwrap().order.is_some());
    assert_eq!(oms.last_quote_ms, 1_100);
    assert!(oms.do_taker(taker_intent(px(1.0) as i128, 1000.0, 5_000), false).unwrap().order.is_none());
}

#[test]
fn intents_that_cannot_be_acted_on_are_errors() {
    let mut oms = ready_oms(0.0, vec![]);
    let other = TakerContext { asset: 9, ..taker_intent(1, 1000.0, 1) };
    assert_eq!(oms.do_taker(other, true).unwrap_err(), OmsError::AssetMismatch { oms_asset: 2, intent_asset: 9 });
    let unpriced = TakerContext { price: None, ..taker_intent(1, 1000.0, 1) };
    assert_eq!(oms.do_taker(unpriced, true).unwrap_err(), OmsError::MissingPrice { asset: 2 });
    let market = TakerContext { price: None, is_market: true, ..taker_intent(1, 1000.0, 1_000) };
    assert_eq!(oms.do_taker(market, true).unwrap().order.unwrap().order_type, OrderType::Market);
}

#[test]
fn maker_quote_near_a_resting_order_is_held_back() {
    let opens = vec![OpenOrder { id: 31, price: px(99.02) as i128, size: px(1.0) as i128 }];
    let mut oms = ready_oms(0.0, opens);
    let maker = MakerContext {
        asset: 2,
        price: px(99.0) as i128,
        size: px(1.0) as i128,
        is_post_only: true,
        is_first: false,
        max_order_num: 1,
        order_min_price_diff: px(0.05) as i128,
        max_usd_pos: px(1000.0) as i128,
        now_ms: 5_000,
    };
    assert!(oms.do_maker(maker, true).unwrap().order.is_none());
    let far = MakerContext { price: px(98.0) as i128, ..maker };
    let req = oms.do_maker(far, true).unwrap().order.unwrap();
    assert_eq!(req.order_type, OrderType::PostOnly);
    assert_eq!(req.price, Some(px(98.0) as i128));
}

#[test]
fn maker_quotes_stay_inside_the_book() {
    let maker = BasicMaker::new(px(100.0), px(10.0));
    assert_eq!(maker.position_limit_usd, px(1000.0) as i128);
    assert_eq!(BasicMaker::new(px(100.0), px(1.0)).position_limit_usd, px(10.0) as i128);
    let ctx = BasicMakerContext {
        theo_bid: px(101.0) as i128,
        theo_ask: px(99.0) as i128,
        ticker: lag_ticker(100.0, 100.1),
        position_usd: 0,
        min_bps_diff: px(5.0),
        min_tick_diff: px(2.0),
        now_ms: 7,
    };
    let (quotes, _) = maker.get_maker_ctx(ctx, &rule());
    assert_eq!(quotes.len(), 2);
    assert_eq!(quotes[0].maker.price, px(100.01) as i128);
    assert_eq!(quotes[1].maker.price, px(100.09) as i128);
    assert!(quotes[0].maker.size > 0 && quotes[1].maker.size == -quotes[0].maker.size);
    // max(100.05 * 5e-4, 0.01 * 2) = 0.050025
    assert_eq!(quotes[0].maker.order_min_price_diff, 5_002_500);
    assert!(quotes[0].maker.is_post_only);
}

fn fed_tema(val: i128) -> TemaMs {
    let mut t = TemaMs::new("1M", None);
    t.update(val, 1_000, 100_000_000);
    t
}

#[test]
fn new_coin_sigma_floor() {
    let mut model = NewCoinMakerModel::new(5, "1M", "1M", px(1.0), px(20.0), (None, None, None, None));
    assert!(!model.is_ready());
    model.value_tema = fed_tema(px(10.0) as i128);
    model.volume_tema = fed_tema(px(1.0) as i128);
    model.value_diff_tema = fed_tema(10_000);
    model.volume_diff_tema = fed_tema(px(1.0) as i128);
    assert!(model.is_ready());
    assert_eq!(model.get_tema_price(), px(10.0) as i128);
    assert_eq!(model.get_tema_sigma(), 10_000);
    let (ask, bid) = model.get_quote_price();
    assert_eq!(bid, px(9.98) as i128);
    assert_eq!(ask, px(10.02) as i128);
}

#[test]
fn new_coin_model_follows_trades() {
    let mut model = NewCoinMakerModel::new(5, "1M", "1M", px(2.0), 0, (None, None, None, None));
    let full = TemaDecays { value: 100_000_000, volume: 100_000_000, value_diff: 100_000_000, volume_diff: 100_000_000 };
    let t1 = Trade { price: px(10.0), volume: -px(2.0), transaction_time: 1_000 };
    assert_eq!(model.price_after_trade(&t1, &full), Some(px(10.0) as i128));
    model.update(&t1, &full, 0);
    assert_eq!(model.volume_tema.val, px(2.0) as i128);
    assert_eq!(model.value_tema.val, px(20.0) as i128);
    assert_eq!(model.value_diff_tema.val, 0);
    let t2 = Trade { price: px(11.0), volume: px(1.0), transaction_time: 2_000 };
    let p = model.price_after_trade(&t2, &full).unwrap();
    let log_ratio = ((11.0 / (p as f64 / ONE)).ln() * ONE) as i128;
    model.update(&t2, &full, log_ratio);
    assert!(model.is_ready());
    assert!(model.get_tema_sigma() > 0);
}

#[test]
fn maker_keeps_the_side_whose_price_is_valid() {
    let maker = BasicMaker::new(px(100.0), px(10.0));
    let ctx = BasicMakerContext {
        theo_bid: -(px(1.0) as i128),
        theo_ask: px(100.2) as i128,
        ticker: lag_ticker(100.0, 100.1),
        position_usd: 0,
        min_bps_diff: 0,
        min_tick_diff: 0,
        now_ms: 7,
    };
    let (quotes, _) = maker.get_maker_ctx(ctx, &rule());
    assert_eq!(quotes.len(), 1);
    assert_eq!(quotes[0].maker.price, px(100.2) as i128);
    assert!(quotes[0].maker.size < 0);
}

#[test]
fn planned_cancels_match_what_the_manager_issues() {
    let opens = vec![OpenOrder { id: 41, price: px(99.0) as i128, size: px(1.0) as i128 }];
    let mut oms = ready_oms(1100.0, opens);
    let intent = taker_intent(px(1.0) as i128, 1000.0, 5_000);
    let planned = oms.taker_cancels(intent).unwrap();
    let actions = oms.do_taker(intent, true).unwrap();
    assert_eq!(planned, vec![41]);
    assert_eq!(actions.cancels, planned);
    assert!(actions.order.is_none());
}
