//! Event vocabulary shared by all engines.
use vstd::prelude::*;

verus! {

/// Candle timeframe of an instrument's bar stream.
#[derive(Debug, Clone, Copy, PartialEq, Eq, Hash, Structural)]
pub enum Timeframe {
    Min1,
    Min5,
    Min15,
    Hour1,
    Hour4,
    Day1,
}

/// The short label of a timeframe, as it travels on the wire.
pub open spec fn timeframe_label(tf: Timeframe) -> Seq<char> {
    match tf {
        Timeframe::Min1 => "1m"@,
        Timeframe::Min5 => "5m"@,
        Timeframe::Min15 => "15m"@,
        Timeframe::Hour1 => "1h"@,
        Timeframe::Hour4 => "4h"@,
        Timeframe::Day1 => "1d"@,
    }
}

impl Timeframe {
    /// The wire label of the timeframe ("1m", "5m", "15m", "1h", "4h", "1d").
    pub fn as_str(&self) -> (s: &'static str)
        ensures
            s@ == timeframe_label(*self),
    {
        match self {
            Timeframe::Min1 => "1m",
            Timeframe::Min5 => "5m",
            Timeframe::Min15 => "15m",
            Timeframe::Hour1 => "1h",
            Timeframe::Hour4 => "4h",
            Timeframe::Day1 => "1d",
        }
    }
}

/// Most likely market regime.
#[derive(Debug, Clone, Copy, PartialEq, Eq, Structural)]
pub enum MarketRegime {
    Trending,
    Ranging,
    HighVolatility,
}

/// Overall trend direction.
#[derive(Debug, Clone, Copy, PartialEq, Eq, Structural)]
pub enum TrendDirection {
    StrongUp,
    WeakUp,
    Neutral,
    WeakDown,
    StrongDown,
}

/// The side the signal engine trades on a trend: it buys into an upward
/// trend, strong or weak, and sells otherwise.
pub open spec fn side_for(direction: TrendDirection) -> Side {
    match direction {
        TrendDirection::StrongUp | TrendDirection::WeakUp => Side::Buy,
        _ => Side::Sell,
    }
}

impl TrendDirection {
    /// The side to trade on this trend direction.
    pub fn trade_side(&self) -> (side: Side)
        ensures
            side == side_for(*self),
    {
        match self {
            TrendDirection::StrongUp | TrendDirection::WeakUp => Side::Buy,
            _ => Side::Sell,
        }
    }
}

/// Side of a trade.
#[derive(Debug, Clone, Copy, PartialEq, Eq, Structural)]
pub enum Side {
    Buy,
    Sell,
}

/// The wire label of a side.
pub open spec fn side_label(side: Side) -> Seq<char> {
    match side {
        Side::Buy => "BUY"@,
        Side::Sell => "SELL"@,
    }
}

impl Side {
    /// The wire label of the side ("BUY" or "SELL").
    pub fn as_str(&self) -> (s: &'static str)
        ensures
            s@ == side_label(*self),
    {
        match self {
            Side::Buy => "BUY",
            Side::Sell => "SELL",
        }
    }
}

} // verus!
