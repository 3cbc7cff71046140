//! Message-bus subjects on which the engines exchange events.
use vstd::prelude::*;

verus! {

pub const TICK: &'static str = "pts.market.tick";

pub const CANDLE: &'static str = "pts.market.candle";

pub const OPTION_CHAIN: &'static str = "pts.market.option_chain";

pub const REGIME: &'static str = "pts.quant.regime";

pub const TREND: &'static str = "pts.quant.trend";

pub const REVERSAL: &'static str = "pts.quant.reversal";

pub const MOVEMENT: &'static str = "pts.quant.movement";

pub const SIGNAL: &'static str = "pts.quant.signal";

pub const EXECUTION: &'static str = "pts.quant.execution";

/// Subject on which the executor publishes submitted order intents.
pub const ORDER_SUBMITTED: &'static str = "pts.order.submitted";

} // verus!
