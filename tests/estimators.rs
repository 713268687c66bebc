use lead_lag_hft::ema::{DelayEma, DelayEmaConfig, OffsetEma, OffsetEmaConfig, SpreadEma, SpreadEmaConfig};
use lead_lag_hft::period::{get_period_ms, parse_period_ms};
use lead_lag_hft::tema::TemaMs;
use lead_lag_hft::ticker::{Depth, Level, Ticker};

const ONE: f64 = 100_000_000.0;

fn px(x: f64) -> i64 {
    (x * ONE).round() as i64
}

fn ticker(asset: u64, bp1: f64, ap1: f64, transaction_ms: u64, receive_ms: u64) -> Ticker {
    Ticker { asset, transaction_ms, receive_ms, ap1: px(ap1), bp1: px(bp1), av1: 100_000_000, bv1: 100_000_000 }
}

fn offset_config(period: &str, intval: u64) -> OffsetEmaConfig {
    OffsetEmaConfig { period: period.to_string(), intval }
}

#[test]
fn period_labels_read_as_milliseconds() {
    assert_eq!(get_period_ms("1S"), 1_000);
    assert_eq!(get_period_ms("30M"), 1_800_000);
    assert_eq!(get_period_ms("2H"), 7_200_000);
    assert_eq!(get_period_ms("1D"), 86_400_000);
    assert_eq!(parse_period_ms("1M"), Some(60_000));
}

#[test]
fn malformed_period_labels_are_refused() {
    assert_eq!(parse_period_ms("10"), None);
    assert_eq!(parse_period_ms("M"), None);
    assert_eq!(parse_period_ms("1m"), None);
    assert_eq!(parse_period_ms("1.5M"), None);
    assert_eq!(parse_period_ms(""), None);
    assert_eq!(parse_period_ms("99999999999999999999S"), None);
    assert_eq!(parse_period_ms("18446744073709551D"), None);
}

#[test]
fn window_length_from_period_and_interval() {
    let e = OffsetEma::new(&offset_config("1M", 100), None);
    assert_eq!(e.period, "1M");
    assert_eq!(e.length, 600);
    assert_eq!(e.intval, 100);
    assert!(!e.init);
    assert_eq!((e.b2b, e.b2a, e.a2b, e.a2a), (0, 0, 0, 0));
}

#[test]
fn first_warm_started_offset_update_smooths() {
    let warm = (100_000, 150_000, 80_000, 120_000);
    let mut e = OffsetEma::new(&offset_config("1M", 100), Some(warm));
    assert!(e.init);
    let lead = ticker(1, 100.0, 100.1, 990, 995);
    let lag = ticker(2, 100.05, 100.2, 990, 995);
    e.update(&lead, &lag, 1000);
    // (599 * 0.001 + 2 * 0.0005) / 601, in units of 1e-8
    assert_eq!(e.b2b, 99_833);
    let length = 600.0;
    let decay = (length - 1.0) / (length + 1.0);
    let alpha = 2.0 / (length + 1.0);
    let expected = 0.001 * decay + alpha * (100.05 / 100.0 - 1.0);
    assert!((e.b2b as f64 / ONE - expected).abs() < 2e-8);
    assert!(e.init);
    assert_eq!(e.last_update_ms, 1000);
}

#[test]
fn cold_offset_first_sample_is_taken_as_is() {
    let mut e = OffsetEma::new(&offset_config("1M", 100), None);
    let lead = ticker(1, 100.0, 100.1, 990, 995);
    let lag = ticker(2, 100.05, 100.2, 990, 995);
    e.update(&lead, &lag, 1000);
    assert_eq!(e.b2b, 50_000);
    assert_eq!(e.b2a, -49_951);
    assert_eq!(e.a2b, 200_000);
    assert_eq!(e.a2a, 99_900);
    assert!((e.b2a as f64 / ONE - (100.05 / 100.1 - 1.0)).abs() < 2e-8);
    assert!((e.a2a as f64 / ONE - (100.2 / 100.1 - 1.0)).abs() < 2e-8);
    assert!(e.init);
    assert_eq!(e.last_update_ms, 1000);
}

#[test]
fn updates_closer_than_the_interval_are_ignored() {
    let mut e = OffsetEma::new(&offset_config("1M", 100), None);
    let lead = ticker(1, 100.0, 100.1, 990, 995);
    let lag = ticker(2, 100.05, 100.2, 990, 995);
    e.update(&lead, &lag, 1000);
    let after_first = e.clone();
    let lag2 = ticker(2, 101.0, 101.2, 1040, 1045);
    e.update(&lead, &lag2, 1099);
    assert_eq!(e, after_first);
    e.update(&lead, &lag2, 1100);
    assert_eq!(e.last_update_ms, 1100);
    assert_ne!(e.b2b, after_first.b2b);
}

#[test]
fn identical_books_drive_offsets_to_zero() {
    let mut e = OffsetEma::new(&offset_config("1S", 100), Some((500_000, -300_000, 400_000, -700_000)));
    let lead = ticker(1, 100.0, 100.0, 0, 0);
    let lag = ticker(2, 100.0, 100.0, 0, 0);
    let mut ts = 100;
    let mut last = (e.b2b.abs(), e.a2a.abs());
    for _ in 0..2000 {
        e.update(&lead, &lag, ts);
        assert!(e.b2b.abs() <= last.0 && e.a2a.abs() <= last.1);
        last = (e.b2b.abs(), e.a2a.abs());
        ts += 100;
    }
    assert_eq!((e.b2b, e.b2a, e.a2b, e.a2a), (0, 0, 0, 0));
}

#[test]
fn spread_and_delay_estimators_follow_the_ticker() {
    let mut s = SpreadEma::new(&SpreadEmaConfig { period: "1S".to_string(), intval: 100 }, None);
    let mut d = DelayEma::new(&DelayEmaConfig { period: "1S".to_string(), intval: 100 }, Some(40));
    let t = ticker(1, 100.0, 100.1, 1_000, 1_030);
    s.update(&t, 1_000);
    d.update(&t, 1_000);
    assert_eq!(s.spread, 10_000_000);
    assert_eq!(s.period, "1S");
    assert_eq!(d.period, "1S");
    // length 10: (9 * 40 + 2 * 30) / 11, truncated
    assert_eq!(d.delay, 38);
    assert_eq!(s.last_update_ms, 1_000);
    s.update(&t, 1_050);
    assert_eq!(s.last_update_ms, 1_000);
}

#[test]
fn ticker_from_depth_needs_both_sides() {
    let depth = Depth {
        asset: 3,
        transaction_time: 1_000,
        local_time_ns: 1_005_000_000,
        ask: Some(Level { price: px(10.2), volume: 5 }),
        bid: Some(Level { price: px(10.1), volume: 7 }),
    };
    let t = Ticker::from_depth(&depth).unwrap();
    assert_eq!(t.receive_ms, 1_005);
    assert_eq!(t.get_delay(), 5);
    assert_eq!(t.spread(), px(0.1));
    assert_eq!(t.mid_price(), px(10.15));
    assert!(Ticker::from_depth(&Depth { ask: None, ..depth }).is_none());
    assert!(Ticker::from_depth(&Depth { bid: None, ..depth }).is_none());
    assert!(Ticker::from_depth(&Depth { local_time_ns: 999_000_000, ..depth }).is_none());
}

#[test]
fn tema_seeds_then_decays() {
    let mut t = TemaMs::new("1S", None);
    assert_eq!(t.tau_value, 1_000);
    assert!(!t.is_ready());
    t.update(5_000_000, 10, 100_000_000);
    assert_eq!(t.val, 5_000_000);
    assert!(t.is_ready());
    t.update(2_000_000, 20, 50_000_000);
    assert_eq!(t.val, 2_500_000 + 2_000);
    assert_eq!(t.last_ts, 20);
}

#[test]
fn tema_is_ready_after_any_positive_time() {
    let mut t = TemaMs::new("1S", None);
    t.update(7, 1, 100_000_000);
    assert_eq!(t.last_ts, 1);
    assert!(t.is_ready());
}
