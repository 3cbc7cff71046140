use quant_engine::events::{Side, Timeframe, TrendDirection};
use quant_engine::subjects;

#[test]
fn timeframe_labels() {
    assert_eq!(Timeframe::Min1.as_str(), "1m");
    assert_eq!(Timeframe::Min5.as_str(), "5m");
    assert_eq!(Timeframe::Min15.as_str(), "15m");
    assert_eq!(Timeframe::Hour1.as_str(), "1h");
    assert_eq!(Timeframe::Hour4.as_str(), "4h");
    assert_eq!(Timeframe::Day1.as_str(), "1d");
}

#[test]
fn side_labels() {
    assert_eq!(Side::Buy.as_str(), "BUY");
    assert_eq!(Side::Sell.as_str(), "SELL");
}

#[test]
fn trend_direction_picks_side() {
    assert_eq!(TrendDirection::StrongUp.trade_side(), Side::Buy);
    assert_eq!(TrendDirection::WeakUp.trade_side(), Side::Buy);
    assert_eq!(TrendDirection::Neutral.trade_side(), Side::Sell);
    assert_eq!(TrendDirection::WeakDown.trade_side(), Side::Sell);
    assert_eq!(TrendDirection::StrongDown.trade_side(), Side::Sell);
}

#[test]
fn subjects_on_the_bus() {
    assert_eq!(subjects::CANDLE, "pts.market.candle");
    assert_eq!(subjects::SIGNAL, "pts.quant.signal");
    assert_eq!(subjects::ORDER_SUBMITTED, "pts.order.submitted");
}
