use tickstream::symbols::{bytes_eq, should_auto_start_live_mode, yahoo_to_finnhub_symbol};
use tickstream::timeframe::TimeFrame;

#[test]
fn indices_and_crypto_pairs_are_renamed() {
    assert_eq!(yahoo_to_finnhub_symbol("^GSPC"), "SPX");
    assert_eq!(yahoo_to_finnhub_symbol("^DJI"), "DJI");
    assert_eq!(yahoo_to_finnhub_symbol("^IXIC"), "IXIC");
    assert_eq!(yahoo_to_finnhub_symbol("^VIX"), "VIX");
    assert_eq!(yahoo_to_finnhub_symbol("BTC-USD"), "BINANCE:BTCUSDT");
    assert_eq!(yahoo_to_finnhub_symbol("ETH-USD"), "BINANCE:ETHUSDT");
}

#[test]
fn plain_stock_symbols_pass_through() {
    assert_eq!(yahoo_to_finnhub_symbol("AAPL"), "AAPL");
    assert_eq!(yahoo_to_finnhub_symbol(""), "");
    assert_eq!(yahoo_to_finnhub_symbol("gspc"), "gspc");
}

#[test]
fn live_mode_starts_for_everything_but_indices() {
    assert!(should_auto_start_live_mode("AAPL"));
    assert!(should_auto_start_live_mode(""));
    assert!(!should_auto_start_live_mode("^GSPC"));
    assert!(!should_auto_start_live_mode("^DJI"));
}

#[test]
fn byte_equality() {
    assert!(bytes_eq(b"abc", b"abc"));
    assert!(!bytes_eq(b"abc", b"abd"));
    assert!(!bytes_eq(b"abc", b"ab"));
    assert!(bytes_eq(b"", b""));
}

#[test]
fn timeframe_encodings() {
    assert_eq!(TimeFrame::OneDay.to_api_string(), "1d");
    assert_eq!(TimeFrame::OneWeek.to_api_string(), "5d");
    assert_eq!(TimeFrame::OneMonth.to_api_string(), "1mo");
    assert_eq!(TimeFrame::ThreeMonths.to_api_string(), "3mo");
    assert_eq!(TimeFrame::OneYear.to_api_string(), "1y");
    assert_eq!(TimeFrame::OneDay.to_interval(), "5m");
    assert_eq!(TimeFrame::OneWeek.to_interval(), "30m");
    assert_eq!(TimeFrame::OneYear.to_interval(), "1wk");
    assert_eq!(TimeFrame::OneMonth.display(), "1 Month");
}

#[test]
fn timeframe_cycle_is_closed_and_prev_undoes_next() {
    let frames = [
        TimeFrame::OneDay,
        TimeFrame::OneWeek,
        TimeFrame::OneMonth,
        TimeFrame::ThreeMonths,
        TimeFrame::OneYear,
    ];
    for f in frames {
        assert_eq!(f.next().prev(), f);
        assert_eq!(f.prev().next(), f);
    }
    let mut f = TimeFrame::OneDay;
    for _ in 0..5 {
        f = f.next();
    }
    assert_eq!(f, TimeFrame::OneDay);
}
