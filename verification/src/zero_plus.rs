//! The scratch-or-join trading policy over top-of-book snapshots, and the
//! flat decision function shaped for a hardware datapath: plain integer
//! inputs in, an (action, price, quantity) triple out.

use vstd::prelude::*;
use crate::market_data::{MarketSnapshot, OrderSide};

verus! {

/// The strategy state: position, last fill, resting orders, and the
/// running tallies of trades and scratches.
#[derive(Debug)]
pub struct ZeroPlusStrategy {
    pub position: i32,
    pub last_fill_price: u32,
    pub last_fill_side: Option<OrderSide>,
    pub pending_orders: Vec<PendingOrder>,
    pub total_pnl: i64,
    pub trades_today: u32,
    pub scratches_today: u32,
}

/// An order the strategy has placed and not yet seen filled.
#[derive(Debug, Clone)]
pub struct PendingOrder {
    pub order_id: u64,
    pub price: u32,
    pub quantity: u32,
    pub side: OrderSide,
    pub timestamp: u64,
    pub can_scratch: bool,
}

/// What the strategy wants done, at which price and size, and how fast.
#[derive(Debug, Clone)]
pub struct TradingSignal {
    pub action: TradingAction,
    pub price: u32,
    pub quantity: u32,
    pub urgency: SignalUrgency,
}

/// The possible actions.
#[derive(Debug, Clone, Copy, PartialEq, Eq, Structural)]
pub enum TradingAction {
    Buy,
    Sell,
    Scratch,
    Hold,
    Cancel(u64),
}

/// How quickly a signal must be acted on.
#[derive(Debug, Clone, Copy, PartialEq, Eq, Structural)]
pub enum SignalUrgency {
    Immediate,
    Fast,
    Normal,
}

/// Whether the current position should be scratched: holding after a buy
/// whose level went weak or whose price fell, or after a sell whose level
/// went weak or whose price rose.
pub open spec fn spec_should_scratch(st: ZeroPlusStrategy, snapshot: MarketSnapshot) -> bool {
    if st.position == 0 {
        false
    } else {
        match st.last_fill_side {
            Some(OrderSide::Buy) => !snapshot.bid_queue_strength || snapshot.best_bid_price
                < st.last_fill_price,
            Some(OrderSide::Sell) => !snapshot.ask_queue_strength || snapshot.best_ask_price
                > st.last_fill_price,
            None => false,
        }
    }
}

/// The signal that closes the current position at the touch.
pub open spec fn spec_scratch_signal(st: ZeroPlusStrategy, snapshot: MarketSnapshot) -> TradingSignal {
    let action = match st.last_fill_side {
        Some(OrderSide::Buy) => TradingAction::Sell,
        Some(OrderSide::Sell) => TradingAction::Buy,
        None => TradingAction::Hold,
    };
    let price = match action {
        TradingAction::Sell => snapshot.best_bid_price,
        TradingAction::Buy => snapshot.best_ask_price,
        _ => 0,
    };
    TradingSignal {
        action,
        price,
        quantity: (if st.position >= 0 {
            st.position as int
        } else {
            -(st.position as int)
        }) as u32,
        urgency: SignalUrgency::Immediate,
    }
}

/// The signal for a fresh opportunity: only when flat and the spread is one
/// tick; join a strong bid first, else a strong ask, else hold.
pub open spec fn spec_queue_opportunity(st: ZeroPlusStrategy, snapshot: MarketSnapshot) -> TradingSignal {
    if st.position != 0 || snapshot.spread != 1 {
        TradingSignal {
            action: TradingAction::Hold,
            price: 0,
            quantity: 0,
            urgency: SignalUrgency::Normal,
        }
    } else if snapshot.bid_queue_strength && snapshot.best_bid_qty >= 100 {
        TradingSignal {
            action: TradingAction::Buy,
            price: snapshot.best_bid_price,
            quantity: 50,
            urgency: SignalUrgency::Fast,
        }
    } else if snapshot.ask_queue_strength && snapshot.best_ask_qty >= 100 {
        TradingSignal {
            action: TradingAction::Sell,
            price: snapshot.best_ask_price,
            quantity: 50,
            urgency: SignalUrgency::Fast,
        }
    } else {
        TradingSignal {
            action: TradingAction::Hold,
            price: 0,
            quantity: 0,
            urgency: SignalUrgency::Normal,
        }
    }
}

impl ZeroPlusStrategy {
    /// A flat strategy with empty tallies.
    pub fn new() -> (r: Self)
        ensures
            r.position == 0,
            r.last_fill_price == 0,
            r.last_fill_side is None,
            r.pending_orders@.len() == 0,
            r.total_pnl == 0,
            r.trades_today == 0,
            r.scratches_today == 0,
    {
        ZeroPlusStrategy {
            position: 0,
            last_fill_price: 0,
            last_fill_side: None,
            pending_orders: Vec::new(),
            total_pnl: 0,
            trades_today: 0,
            scratches_today: 0,
        }
    }

    /// The core step: scratch a position that has turned against us, else
    /// look for a strong level to join.
    pub fn process_market_data(&mut self, snapshot: &MarketSnapshot) -> (r: TradingSignal)
        requires
            old(self).position > i32::MIN,
            old(self).scratches_today < u32::MAX,
        ensures
            spec_should_scratch(*old(self), *snapshot) ==> r == spec_scratch_signal(
                *old(self),
                *snapshot,
            ) && final(self).scratches_today == old(self).scratches_today + 1,
            !spec_should_scratch(*old(self), *snapshot) ==> r == spec_queue_opportunity(
                *old(self),
                *snapshot,
            ) && final(self).scratches_today == old(self).scratches_today,
            final(self).position == old(self).position,
            final(self).last_fill_price == old(self).last_fill_price,
            final(self).last_fill_side == old(self).last_fill_side,
            final(self).total_pnl == old(self).total_pnl,
            final(self).trades_today == old(self).trades_today,
    {
        if self.should_scratch(snapshot) {
            return self.generate_scratch_signal(snapshot);
        }
        self.find_queue_opportunity(snapshot)
    }

    /// Whether the current position should be scratched, as
    /// `spec_should_scratch` states it.
    pub fn should_scratch(&self, snapshot: &MarketSnapshot) -> (r: bool)
        ensures
            r == spec_should_scratch(*self, *snapshot),
    {
        if self.position == 0 {
            return false;
        }
        match &self.last_fill_side {
            Some(OrderSide::Buy) => !snapshot.bid_queue_strength || snapshot.best_bid_price
                < self.last_fill_price,
            Some(OrderSide::Sell) => !snapshot.ask_queue_strength || snapshot.best_ask_price
                > self.last_fill_price,
            None => false,
        }
    }

    /// Produce the scratch signal and count it.
    pub fn generate_scratch_signal(&mut self, snapshot: &MarketSnapshot) -> (r: TradingSignal)
        requires
            old(self).position > i32::MIN,
            old(self).scratches_today < u32::MAX,
        ensures
            r == spec_scratch_signal(*old(self), *snapshot),
            final(self).scratches_today == old(self).scratches_today + 1,
            final(self).position == old(self).position,
            final(self).last_fill_price == old(self).last_fill_price,
            final(self).last_fill_side == old(self).last_fill_side,
            final(self).total_pnl == old(self).total_pnl,
            final(self).trades_today == old(self).trades_today,
    {
        let action = match &self.last_fill_side {
            Some(OrderSide::Buy) => TradingAction::Sell,
            Some(OrderSide::Sell) => TradingAction::Buy,
            None => TradingAction::Hold,
        };
        let price = match action {
            TradingAction::Sell => snapshot.best_bid_price,
            TradingAction::Buy => snapshot.best_ask_price,
            _ => 0,
        };
        self.scratches_today = self.scratches_today + 1;
        let quantity: u32 = if self.position >= 0 {
            self.position as u32
        } else {
            (-self.position) as u32
        };
        TradingSignal { action, price, quantity, urgency: SignalUrgency::Immediate }
    }

    /// Look for a strong level to join, as `spec_queue_opportunity` states.
    pub fn find_queue_opportunity(&self, snapshot: &MarketSnapshot) -> (r: TradingSignal)
        ensures
            r == spec_queue_opportunity(*self, *snapshot),
    {
        if self.position != 0 || snapshot.spread != 1 {
            return TradingSignal {
                action: TradingAction::Hold,
                price: 0,
                quantity: 0,
                urgency: SignalUrgency::Normal,
            };
        }
        if snapshot.bid_queue_strength && snapshot.best_bid_qty >= 100 {
            return TradingSignal {
                action: TradingAction::Buy,
                price: snapshot.best_bid_price,
                quantity: 50,
                urgency: SignalUrgency::Fast,
            };
        }
        if snapshot.ask_queue_strength && snapshot.best_ask_qty >= 100 {
            return TradingSignal {
                action: TradingAction::Sell,
                price: snapshot.best_ask_price,
                quantity: 50,
                urgency: SignalUrgency::Fast,
            };
        }
        TradingSignal {
            action: TradingAction::Hold,
            price: 0,
            quantity: 0,
            urgency: SignalUrgency::Normal,
        }
    }

    /// Book a fill: realize profit or loss when the fill closes against the
    /// position, then update position, last fill and the trade tally.
    pub fn handle_fill(&mut self, price: u32, quantity: u32, side: OrderSide)
        requires
            quantity <= i32::MAX,
            i32::MIN <= old(self).position + (if side is Buy {
                quantity as int
            } else {
                -(quantity as int)
            }) <= i32::MAX,
            i64::MIN <= old(self).total_pnl + (price - old(self).last_fill_price)
                * (quantity as int) <= i64::MAX,
            i64::MIN <= old(self).total_pnl + (old(self).last_fill_price - price)
                * (quantity as int) <= i64::MAX,
            i64::MIN <= (price - old(self).last_fill_price) * (quantity as int) <= i64::MAX,
            i64::MIN <= (old(self).last_fill_price - price) * (quantity as int) <= i64::MAX,
            old(self).trades_today < u32::MAX,
        ensures
            final(self).position == old(self).position + (if side is Buy {
                quantity as int
            } else {
                -(quantity as int)
            }),
            final(self).last_fill_price == price,
            final(self).last_fill_side == Some(side),
            final(self).trades_today == old(self).trades_today + 1,
            final(self).scratches_today == old(self).scratches_today,
            final(self).total_pnl == (if old(self).position != 0 && ((old(self).position > 0
                && side is Sell) || (old(self).position < 0 && side is Buy)) {
                old(self).total_pnl + (if side is Sell {
                    (price - old(self).last_fill_price) * (quantity as int)
                } else {
                    (old(self).last_fill_price - price) * (quantity as int)
                })
            } else {
                old(self).total_pnl as int
            }),
    {
        let signed_quantity: i32 = match side {
            OrderSide::Buy => quantity as i32,
            OrderSide::Sell => -(quantity as i32),
        };
        if self.position != 0 && ((self.position > 0 && side == OrderSide::Sell) || (self.position
            < 0 && side == OrderSide::Buy)) {
            let pnl: i64 = match side {
                OrderSide::Sell => (price as i64 - self.last_fill_price as i64) * quantity as i64,
                OrderSide::Buy => (self.last_fill_price as i64 - price as i64) * quantity as i64,
            };
            self.total_pnl = self.total_pnl + pnl;
        }
        self.position = self.position + signed_quantity;
        self.last_fill_price = price;
        self.last_fill_side = Some(side);
        self.trades_today = self.trades_today + 1;
    }
}

/// The decision function shaped for hardware: market data and strategy
/// state in as plain integers, an (action, price, quantity) triple out.
/// Action codes: 0 hold, 1 buy, 2 sell. Side codes: 0 none, 1 buy, 2 sell.
pub open spec fn spec_trading_decision(
    best_bid_price: u32,
    best_ask_price: u32,
    best_bid_qty: u32,
    best_ask_qty: u32,
    bid_queue_strong: bool,
    ask_queue_strong: bool,
    current_position: i32,
    last_fill_price: u32,
    last_fill_side: u8,
) -> (u8, u32, u32) {
    let spread: int = if best_ask_price > best_bid_price {
        best_ask_price - best_bid_price
    } else {
        0
    };
    let should_scratch = if last_fill_side == 1 {
        !bid_queue_strong || best_bid_price < last_fill_price
    } else if last_fill_side == 2 {
        !ask_queue_strong || best_ask_price > last_fill_price
    } else {
        false
    };
    if current_position != 0 && should_scratch {
        let scratch_action: u8 = if last_fill_side == 1 {
            2
        } else {
            1
        };
        let scratch_price = if scratch_action == 2 {
            best_bid_price
        } else {
            best_ask_price
        };
        let magnitude = (if current_position >= 0 {
            current_position as int
        } else {
            -(current_position as int)
        }) as u32;
        (scratch_action, scratch_price, magnitude)
    } else if current_position == 0 && spread == 1 && bid_queue_strong && best_bid_qty >= 100 {
        (1u8, best_bid_price, 50u32)
    } else if current_position == 0 && spread == 1 && ask_queue_strong && best_ask_qty >= 100 {
        (2u8, best_ask_price, 50u32)
    } else {
        (0u8, 0u32, 0u32)
    }
}

/// The hardware-shaped trading decision, as `spec_trading_decision` states
/// it: scratch first when holding a position that turned, otherwise join a
/// strong one-tick market, otherwise hold.
pub fn fpga_trading_decision(
    best_bid_price: u32,
    best_ask_price: u32,
    best_bid_qty: u32,
    best_ask_qty: u32,
    bid_queue_strong: bool,
    ask_queue_strong: bool,
    current_position: i32,
    last_fill_price: u32,
    last_fill_side: u8,
) -> (r: (u8, u32, u32))
    requires
        current_position > i32::MIN,
    ensures
        r == spec_trading_decision(
            best_bid_price,
            best_ask_price,
            best_bid_qty,
            best_ask_qty,
            bid_queue_strong,
            ask_queue_strong,
            current_position,
            last_fill_price,
            last_fill_side,
        ),
{
    let spread: u32 = if best_ask_price > best_bid_price {
        best_ask_price - best_bid_price
    } else {
        0
    };
    if current_position != 0 {
        let should_scratch: bool = if last_fill_side == 1 {
            !bid_queue_strong || best_bid_price < last_fill_price
        } else if last_fill_side == 2 {
            !ask_queue_strong || best_ask_price > last_fill_price
        } else {
            false
        };
        if should_scratch {
            let scratch_action: u8 = if last_fill_side == 1 {
                2
            } else {
                1
            };
            let scratch_price = if scratch_action == 2 {
                best_bid_price
            } else {
                best_ask_price
            };
            let magnitude: u32 = if current_position >= 0 {
                current_position as u32
            } else {
                (-current_position) as u32
            };
            return (scratch_action, scratch_price, magnitude);
        }
    }
    if current_position == 0 && spread == 1 {
        if bid_queue_strong && best_bid_qty >= 100 {
            return (1, best_bid_price, 50);
        }
        if ask_queue_strong && best_ask_qty >= 100 {
            return (2, best_ask_price, 50);
        }
    }
    (0, 0, 0)
}

} // verus!
