use bllvm_commons::btc_price::BtcPriceService;

const DAY: i64 = 86_400_000;

#[test]
fn price_history_keeps_window_and_counts_recent_points() {
    let now: i64 = 1_700_000_000_000;
    let mut service: BtcPriceService<f64> = BtcPriceService::new(30);
    assert_eq!(service.get_latest_price(), None);
    assert_eq!(service.price_point_count(now), 0);

    // 40 days old: beyond the window plus seven days, dropped at once.
    service.add_price(49_000.0, now - 40 * DAY, now);
    assert_eq!(service.price_point_count(now), 0);
    assert_eq!(service.get_latest_price(), None);

    service.add_price(50_000.0, now - 35 * DAY, now);
    service.add_price(51_000.0, now - 10 * DAY, now);
    service.add_price(52_000.0, now - DAY, now);
    assert_eq!(service.get_latest_price(), Some(52_000.0));
    assert_eq!(service.price_point_count(now), 2);
    assert_eq!(service.recent_prices(now), vec![51_000.0, 52_000.0]);
}

#[test]
fn price_history_caps_points() {
    let now: i64 = 1_700_000_000_000;
    let mut service: BtcPriceService<u32> = BtcPriceService::new(30);
    for i in 0..1005u32 {
        service.add_price(i, now - 1000, now);
    }
    let recent = service.recent_prices(now);
    assert_eq!(recent.len(), 1000);
    assert_eq!(recent[0], 5);
    assert_eq!(service.get_latest_price(), Some(1004));
}
