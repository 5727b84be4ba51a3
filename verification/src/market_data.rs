//! A small limit-order-book simulator: price levels hold queues of orders,
//! the book keeps bids sorted descending and asks ascending, and a
//! pseudo-random tick driver exercises it. Snapshots of the top of book
//! feed the trading-decision logic.

use vstd::prelude::*;
use std::collections::VecDeque;
use std::time::{SystemTime, UNIX_EPOCH};

verus! {

/// Which side of the book an order stands on.
#[derive(Debug, Clone, Copy, PartialEq, Eq, Structural)]
pub enum OrderSide {
    Buy,
    Sell,
}

/// A resting order: identifier, price in ticks, quantity, side, and the
/// time it was placed (microseconds).
#[derive(Debug, Clone)]
pub struct Order {
    pub id: u64,
    pub price: u32,
    pub quantity: u32,
    pub side: OrderSide,
    pub timestamp: u64,
}

/// The queue of orders resting at one price level.
#[derive(Debug, Clone)]
pub struct OrderQueue {
    pub price: u32,
    pub orders: VecDeque<Order>,
    pub total_quantity: u32,
}

impl OrderQueue {
    /// An empty level at the given price.
    pub fn new(price: u32) -> (r: Self)
        ensures
            r.price == price,
            r.orders@.len() == 0,
            r.total_quantity == 0,
    {
        OrderQueue { price, orders: VecDeque::new(), total_quantity: 0 }
    }

    /// Append an order at the back of the level.
    pub fn add_order(&mut self, order: Order)
        requires
            old(self).total_quantity + order.quantity <= u32::MAX,
        ensures
            final(self).price == old(self).price,
            final(self).orders@ == old(self).orders@.push(order),
            final(self).total_quantity == old(self).total_quantity + order.quantity,
    {
        self.total_quantity = self.total_quantity + order.quantity;
        self.orders.push_back(order);
    }

    /// Pop the order at the front of the level, subtracting its quantity
    /// (clamped at zero) from the level's total.
    pub fn remove_front(&mut self) -> (r: Option<Order>)
        ensures
            final(self).price == old(self).price,
            old(self).orders@.len() == 0 ==> r is None && final(self).orders@ == old(
                self,
            ).orders@ && final(self).total_quantity == old(self).total_quantity,
            old(self).orders@.len() > 0 ==> {
                &&& r == Some(old(self).orders@[0])
                &&& final(self).orders@ == old(self).orders@.subrange(
                    1,
                    old(self).orders@.len() as int,
                )
                &&& final(self).total_quantity == (if old(self).total_quantity >= old(
                    self,
                ).orders@[0].quantity {
                    old(self).total_quantity - old(self).orders@[0].quantity
                } else {
                    0
                })
            },
    {
        match self.orders.pop_front() {
            Some(order) => {
                let t = self.total_quantity;
                self.total_quantity = if t >= order.quantity {
                    t - order.quantity
                } else {
                    0
                };
                Some(order)
            },
            None => None,
        }
    }

    /// A level with at least three orders and total quantity of at least a
    /// hundred counts as strong.
    pub fn is_strong(&self) -> (r: bool)
        ensures
            r == (self.orders@.len() >= 3 && self.total_quantity >= 100),
    {
        self.orders.len() >= 3 && self.total_quantity >= 100
    }

    /// A level with at most one order or total quantity of at most thirty
    /// counts as weak.
    pub fn is_weak(&self) -> (r: bool)
        ensures
            r == (self.orders@.len() <= 1 || self.total_quantity <= 30),
    {
        self.orders.len() <= 1 || self.total_quantity <= 30
    }

    /// The position of the order with this identifier, front first.
    pub fn queue_position(&self, order_id: u64) -> (r: Option<usize>)
        ensures
            r matches Some(p) ==> p < self.orders@.len() && self.orders@[p as int].id == order_id
                && (forall|j: int| 0 <= j < p ==> #[trigger] self.orders@[j].id != order_id),
            r is None ==> forall|j: int|
                0 <= j < self.orders@.len() ==> #[trigger] self.orders@[j].id != order_id,
    {
        let n = self.orders.len();
        for i in 0..n
            invariant
                n == self.orders@.len(),
                forall|j: int| 0 <= j < i ==> #[trigger] self.orders@[j].id != order_id,
        {
            if self.orders[i].id == order_id {
                return Some(i);
            }
        }
        None
    }
}

/// Bids sorted by price, best (highest) first, strictly.
pub open spec fn sorted_desc(qs: Seq<OrderQueue>) -> bool {
    forall|i: int, j: int| 0 <= i < j < qs.len() ==> qs[i].price > qs[j].price
}

/// Asks sorted by price, best (lowest) first, strictly.
pub open spec fn sorted_asc(qs: Seq<OrderQueue>) -> bool {
    forall|i: int, j: int| 0 <= i < j < qs.len() ==> qs[i].price < qs[j].price
}

/// Where a rested order landed on one side: if a level at its price
/// existed, that level gained the order at its back and nothing else
/// changed; otherwise a fresh one-order level stands at some position with
/// the suffix shifted right.
pub open spec fn order_rested(pre: Seq<OrderQueue>, post: Seq<OrderQueue>, order: Order) -> bool {
    if exists|k: int| 0 <= k < pre.len() && (#[trigger] pre[k]).price == order.price {
        exists|k: int|
            {
                &&& 0 <= k < pre.len()
                &&& (#[trigger] pre[k]).price == order.price
                &&& post.len() == pre.len()
                &&& post[k].price == order.price
                &&& post[k].orders@ == pre[k].orders@.push(order)
                &&& post[k].total_quantity == pre[k].total_quantity + order.quantity
                &&& forall|j: int| 0 <= j < pre.len() && j != k ==> post[j] == #[trigger] pre[j]
            }
    } else {
        exists|k: int|
            {
                &&& 0 <= k <= pre.len()
                &&& post.len() == pre.len() + 1
                &&& (#[trigger] post[k]).price == order.price
                &&& post[k].orders@ == seq![order]
                &&& post[k].total_quantity == order.quantity
                &&& forall|j: int| 0 <= j < k ==> post[j] == #[trigger] pre[j]
                &&& forall|j: int| k < j < post.len() ==> #[trigger] post[j] == pre[j - 1]
            }
    }
}

/// A top-of-book snapshot handed to the trading-decision logic.
#[derive(Debug, Clone)]
pub struct MarketSnapshot {
    pub timestamp: u64,
    pub best_bid_price: u32,
    pub best_ask_price: u32,
    pub best_bid_qty: u32,
    pub best_ask_qty: u32,
    pub bid_queue_strength: bool,
    pub ask_queue_strength: bool,
    pub spread: u32,
}

/// The order-book simulator: mid price, tick size, the two sorted sides,
/// the order-identifier counter and the clock (microseconds).
pub struct MarketDataSimulator {
    pub current_price: u32,
    pub tick_size: u32,
    pub bid_queues: Vec<OrderQueue>,
    pub ask_queues: Vec<OrderQueue>,
    pub next_order_id: u64,
    pub current_time: u64,
}

/// Relies on std::time::SystemTime::now: microseconds since the epoch, or
/// zero if the clock reads before it. Nothing further is assumed of the
/// clock's value.
#[verifier::external_body]
fn now_micros() -> u64 {
    SystemTime::now().duration_since(UNIX_EPOCH).map(|d| d.as_micros() as u64).unwrap_or(0)
}

impl MarketDataSimulator {
    /// The book's invariant: the mid price leaves room for ten levels each
    /// way, bids are strictly descending and asks strictly ascending.
    pub open spec fn wf(self) -> bool {
        &&& 11 <= self.current_price
        &&& self.current_price + 10 <= u32::MAX
        &&& sorted_desc(self.bid_queues@)
        &&& sorted_asc(self.ask_queues@)
    }

    /// A simulator seeded with ten levels of depth each way and a one-tick
    /// spread at the top of book.
    pub fn new(initial_price: u32) -> (r: Self)
        requires
            11 <= initial_price,
            initial_price + 10 <= u32::MAX,
        ensures
            r.wf(),
            r.current_price == initial_price,
            r.tick_size == 1,
            r.bid_queues@.len() == 10,
            r.ask_queues@.len() == 10,
            r.bid_queues@[0].price == initial_price - 1,
            r.ask_queues@[0].price == initial_price,
            forall|k: int|
                0 <= k < 10 ==> (#[trigger] r.bid_queues@[k]).orders@.len() == 3
                    && r.bid_queues@[k].total_quantity == 225,
            forall|k: int|
                0 <= k < 10 ==> (#[trigger] r.ask_queues@[k]).orders@.len() == 3
                    && r.ask_queues@[k].total_quantity == 225,
            r.next_order_id == 61,
    {
        let mut simulator = MarketDataSimulator {
            current_price: initial_price,
            tick_size: 1,
            bid_queues: Vec::new(),
            ask_queues: Vec::new(),
            next_order_id: 1,
            current_time: now_micros(),
        };
        simulator.initialize_order_book();
        simulator
    }

    /// Seed ten price levels each way, three orders per level, bids from
    /// one tick under the mid price going down, asks from the mid price
    /// going up.
    fn initialize_order_book(&mut self)
        requires
            11 <= old(self).current_price,
            old(self).current_price + 10 <= u32::MAX,
            old(self).bid_queues@.len() == 0,
            old(self).ask_queues@.len() == 0,
            old(self).next_order_id == 1,
        ensures
            final(self).wf(),
            final(self).current_price == old(self).current_price,
            final(self).tick_size == old(self).tick_size,
            final(self).current_time == old(self).current_time,
            final(self).bid_queues@.len() == 10,
            final(self).ask_queues@.len() == 10,
            final(self).bid_queues@[0].price == old(self).current_price - 1,
            final(self).ask_queues@[0].price == old(self).current_price,
            forall|k: int|
                0 <= k < 10 ==> (#[trigger] final(self).bid_queues@[k]).orders@.len() == 3
                    && final(self).bid_queues@[k].total_quantity == 225,
            forall|k: int|
                0 <= k < 10 ==> (#[trigger] final(self).ask_queues@[k]).orders@.len() == 3
                    && final(self).ask_queues@[k].total_quantity == 225,
            final(self).next_order_id == 61,
    {
        let cp = self.current_price;
        for i in 1..11usize
            invariant
                self.current_price == cp,
                self.tick_size == old(self).tick_size,
                self.current_time == old(self).current_time,
                11 <= cp,
                cp + 10 <= u32::MAX,
                self.bid_queues@.len() == i - 1,
                self.ask_queues@.len() == i - 1,
                forall|k: int|
                    0 <= k < i - 1 ==> (#[trigger] self.bid_queues@[k]).price == cp - (k + 1),
                forall|k: int|
                    0 <= k < i - 1 ==> (#[trigger] self.ask_queues@[k]).price == (if k == 0 {
                        cp as int
                    } else {
                        cp + k
                    }),
                forall|k: int|
                    0 <= k < i - 1 ==> (#[trigger] self.bid_queues@[k]).orders@.len() == 3
                        && self.bid_queues@[k].total_quantity == 225,
                forall|k: int|
                    0 <= k < i - 1 ==> (#[trigger] self.ask_queues@[k]).orders@.len() == 3
                        && self.ask_queues@[k].total_quantity == 225,
                self.next_order_id == 1 + (i - 1) * 6,
        {
            let bid_price = cp - (i as u32);
            let ask_price = if i == 1 {
                cp
            } else {
                cp + (i as u32) - 1
            };
            let mut bid_queue = OrderQueue::new(bid_price);
            for j in 0..3usize
                invariant
                    bid_queue.price == bid_price,
                    bid_queue.orders@.len() == j,
                    bid_queue.total_quantity == (if j == 0 {
                        0int
                    } else if j == 1 {
                        50int
                    } else if j == 2 {
                        125int
                    } else {
                        225int
                    }),
                    1 <= i <= 10,
                    self.next_order_id == 1 + (i - 1) * 6 + j,
                    self.current_time == old(self).current_time,
                    self.current_price == cp,
                    self.tick_size == old(self).tick_size,
                    11 <= cp,
                    cp + 10 <= u32::MAX,
                    self.bid_queues@.len() == i - 1,
                    self.ask_queues@.len() == i - 1,
                    forall|k: int|
                        0 <= k < i - 1 ==> (#[trigger] self.bid_queues@[k]).price == cp - (k + 1),
                    forall|k: int|
                        0 <= k < i - 1 ==> (#[trigger] self.ask_queues@[k]).price == (if k == 0 {
                            cp as int
                        } else {
                            cp + k
                        }),
                    forall|k: int|
                        0 <= k < i - 1 ==> (#[trigger] self.bid_queues@[k]).orders@.len() == 3
                            && self.bid_queues@[k].total_quantity == 225,
                    forall|k: int|
                        0 <= k < i - 1 ==> (#[trigger] self.ask_queues@[k]).orders@.len() == 3
                            && self.ask_queues@[k].total_quantity == 225,
            {
                let order = Order {
                    id: self.next_order_id,
                    price: bid_price,
                    quantity: 50 + (j as u32) * 25,
                    side: OrderSide::Buy,
                    timestamp: self.current_time,
                };
                bid_queue.add_order(order);
                self.next_order_id = self.next_order_id + 1;
            }
            self.bid_queues.push(bid_queue);
            let mut ask_queue = OrderQueue::new(ask_price);
            for j in 0..3usize
                invariant
                    ask_queue.price == ask_price,
                    ask_queue.orders@.len() == j,
                    ask_queue.total_quantity == (if j == 0 {
                        0int
                    } else if j == 1 {
                        50int
                    } else if j == 2 {
                        125int
                    } else {
                        225int
                    }),
                    1 <= i <= 10,
                    self.next_order_id == 1 + (i - 1) * 6 + 3 + j,
                    self.current_time == old(self).current_time,
                    self.current_price == cp,
                    self.tick_size == old(self).tick_size,
                    11 <= cp,
                    cp + 10 <= u32::MAX,
                    self.bid_queues@.len() == i,
                    self.ask_queues@.len() == i - 1,
                    forall|k: int|
                        0 <= k < i ==> (#[trigger] self.bid_queues@[k]).price == cp - (k + 1),
                    forall|k: int|
                        0 <= k < i - 1 ==> (#[trigger] self.ask_queues@[k]).price == (if k == 0 {
                            cp as int
                        } else {
                            cp + k
                        }),
                    forall|k: int|
                        0 <= k < i ==> (#[trigger] self.bid_queues@[k]).orders@.len() == 3
                            && self.bid_queues@[k].total_quantity == 225,
                    forall|k: int|
                        0 <= k < i - 1 ==> (#[trigger] self.ask_queues@[k]).orders@.len() == 3
                            && self.ask_queues@[k].total_quantity == 225,
            {
                let order = Order {
                    id: self.next_order_id,
                    price: ask_price,
                    quantity: 50 + (j as u32) * 25,
                    side: OrderSide::Sell,
                    timestamp: self.current_time,
                };
                ask_queue.add_order(order);
                self.next_order_id = self.next_order_id + 1;
            }
            self.ask_queues.push(ask_queue);
        }
        proof {
            assert forall|x: int, y: int|
                0 <= x < y < self.bid_queues@.len() implies self.bid_queues@[x].price
                > self.bid_queues@[y].price by {
                assert(self.bid_queues@[x].price == cp - (x + 1));
                assert(self.bid_queues@[y].price == cp - (y + 1));
            }
            assert forall|x: int, y: int|
                0 <= x < y < self.ask_queues@.len() implies self.ask_queues@[x].price
                < self.ask_queues@[y].price by {}
        }
    }

    /// Advance the simulated clock.
    pub fn advance_time(&mut self, microseconds: u64)
        requires
            old(self).current_time + microseconds <= u64::MAX,
        ensures
            final(self).current_time == old(self).current_time + microseconds,
            final(self).current_price == old(self).current_price,
            final(self).tick_size == old(self).tick_size,
            final(self).bid_queues == old(self).bid_queues,
            final(self).ask_queues == old(self).ask_queues,
            final(self).next_order_id == old(self).next_order_id,
    {
        self.current_time = self.current_time + microseconds;
    }

    /// The best (highest) bid level, if any.
    pub fn get_best_bid(&self) -> (r: Option<&OrderQueue>)
        ensures
            self.bid_queues@.len() > 0 ==> (r matches Some(q) && *q == self.bid_queues@[0]),
            self.bid_queues@.len() == 0 ==> r is None,
    {
        if self.bid_queues.len() > 0 {
            Some(&self.bid_queues[0])
        } else {
            None
        }
    }

    /// The best (lowest) ask level, if any.
    pub fn get_best_ask(&self) -> (r: Option<&OrderQueue>)
        ensures
            self.ask_queues@.len() > 0 ==> (r matches Some(q) && *q == self.ask_queues@[0]),
            self.ask_queues@.len() == 0 ==> r is None,
    {
        if self.ask_queues.len() > 0 {
            Some(&self.ask_queues[0])
        } else {
            None
        }
    }

    /// The distance between the best ask and the best bid, when both sides
    /// are populated and the book is not crossed.
    pub fn get_spread(&self) -> (r: Option<u32>)
        requires
            self.bid_queues@.len() > 0 && self.ask_queues@.len() > 0
                ==> self.bid_queues@[0].price <= self.ask_queues@[0].price,
        ensures
            r == if self.bid_queues@.len() > 0 && self.ask_queues@.len() > 0 {
                Some((self.ask_queues@[0].price - self.bid_queues@[0].price) as u32)
            } else {
                Option::<u32>::None
            },
    {
        if self.bid_queues.len() > 0 && self.ask_queues.len() > 0 {
            Some(self.ask_queues[0].price - self.bid_queues[0].price)
        } else {
            None
        }
    }

    /// Rest a new order at its price level, creating the level in sorted
    /// position if it does not exist; returns the order's identifier.
    pub fn add_order(&mut self, price: u32, quantity: u32, side: OrderSide) -> (r: u64)
        requires
            old(self).wf(),
            old(self).next_order_id < u64::MAX,
            forall|i: int|
                0 <= i < old(self).bid_queues@.len() ==> (#[trigger] old(
                    self,
                ).bid_queues@[i]).total_quantity + quantity <= u32::MAX,
            forall|i: int|
                0 <= i < old(self).ask_queues@.len() ==> (#[trigger] old(
                    self,
                ).ask_queues@[i]).total_quantity + quantity <= u32::MAX,
        ensures
            final(self).wf(),
            r == old(self).next_order_id,
            final(self).next_order_id == old(self).next_order_id + 1,
            final(self).current_price == old(self).current_price,
            final(self).current_time == old(self).current_time,
            final(self).tick_size == old(self).tick_size,
            side is Buy ==> final(self).ask_queues == old(self).ask_queues && order_rested(
                old(self).bid_queues@,
                final(self).bid_queues@,
                Order {
                    id: old(self).next_order_id,
                    price,
                    quantity,
                    side,
                    timestamp: old(self).current_time,
                },
            ),
            side is Sell ==> final(self).bid_queues == old(self).bid_queues && order_rested(
                old(self).ask_queues@,
                final(self).ask_queues@,
                Order {
                    id: old(self).next_order_id,
                    price,
                    quantity,
                    side,
                    timestamp: old(self).current_time,
                },
            ),
    {
        let order = Order {
            id: self.next_order_id,
            price,
            quantity,
            side,
            timestamp: self.current_time,
        };
        let r = self.next_order_id;
        self.next_order_id = self.next_order_id + 1;
        match side {
            OrderSide::Buy => {
                insert_into_side(&mut self.bid_queues, order, true);
            },
            OrderSide::Sell => {
                insert_into_side(&mut self.ask_queues, order, false);
            },
        }
        r
    }

    /// The top-of-book snapshot the strategy reads.
    pub fn get_market_snapshot(&self) -> (r: MarketSnapshot)
        requires
            self.bid_queues@.len() > 0 && self.ask_queues@.len() > 0
                ==> self.bid_queues@[0].price <= self.ask_queues@[0].price,
        ensures
            r.timestamp == self.current_time,
            r.best_bid_price == (if self.bid_queues@.len() > 0 {
                self.bid_queues@[0].price
            } else {
                0u32
            }),
            r.best_ask_price == (if self.ask_queues@.len() > 0 {
                self.ask_queues@[0].price
            } else {
                0u32
            }),
            r.best_bid_qty == (if self.bid_queues@.len() > 0 {
                self.bid_queues@[0].total_quantity
            } else {
                0u32
            }),
            r.best_ask_qty == (if self.ask_queues@.len() > 0 {
                self.ask_queues@[0].total_quantity
            } else {
                0u32
            }),
            r.bid_queue_strength == (self.bid_queues@.len() > 0 && self.bid_queues@[0].orders.len()
                >= 3 && self.bid_queues@[0].total_quantity >= 100),
            r.ask_queue_strength == (self.ask_queues@.len() > 0 && self.ask_queues@[0].orders.len()
                >= 3 && self.ask_queues@[0].total_quantity >= 100),
            r.spread == (if self.bid_queues@.len() > 0 && self.ask_queues@.len() > 0 {
                (self.ask_queues@[0].price - self.bid_queues@[0].price) as u32
            } else {
                0u32
            }),
    {
        let has_bid = self.bid_queues.len() > 0;
        let has_ask = self.ask_queues.len() > 0;
        MarketSnapshot {
            timestamp: self.current_time,
            best_bid_price: if has_bid {
                self.bid_queues[0].price
            } else {
                0
            },
            best_ask_price: if has_ask {
                self.ask_queues[0].price
            } else {
                0
            },
            best_bid_qty: if has_bid {
                self.bid_queues[0].total_quantity
            } else {
                0
            },
            best_ask_qty: if has_ask {
                self.ask_queues[0].total_quantity
            } else {
                0
            },
            bid_queue_strength: if has_bid {
                self.bid_queues[0].is_strong()
            } else {
                false
            },
            ask_queue_strength: if has_ask {
                self.ask_queues[0].is_strong()
            } else {
                false
            },
            spread: if has_bid && has_ask {
                self.ask_queues[0].price - self.bid_queues[0].price
            } else {
                0
            },
        }
    }

    /// One step of pseudo-random market activity: the clock advances a
    /// hundred microseconds and one of the drivers below may run.
    pub fn simulate_tick(&mut self)
        requires
            old(self).wf(),
            old(self).current_time + 100 <= u64::MAX,
            old(self).next_order_id < u64::MAX,
            forall|i: int|
                0 <= i < old(self).bid_queues@.len() ==> (#[trigger] old(
                    self,
                ).bid_queues@[i]).total_quantity + 124 <= u32::MAX,
            forall|i: int|
                0 <= i < old(self).ask_queues@.len() ==> (#[trigger] old(
                    self,
                ).ask_queues@[i]).total_quantity + 124 <= u32::MAX,
        ensures
            final(self).wf(),
            final(self).current_time == old(self).current_time + 100,
            final(self).current_price == old(self).current_price,
    {
        self.advance_time(100);
        let action = self.current_time.wrapping_mul(1664525).wrapping_add(1013904223) % 10;
        if action <= 3 {
            self.add_random_order();
        } else if action <= 6 {
            self.cancel_random_order();
        } else if action <= 8 {
            self.execute_market_order();
        }
    }

    /// Rest a pseudo-random order near the top of book.
    fn add_random_order(&mut self)
        requires
            old(self).wf(),
            old(self).next_order_id < u64::MAX,
            forall|i: int|
                0 <= i < old(self).bid_queues@.len() ==> (#[trigger] old(
                    self,
                ).bid_queues@[i]).total_quantity + 124 <= u32::MAX,
            forall|i: int|
                0 <= i < old(self).ask_queues@.len() ==> (#[trigger] old(
                    self,
                ).ask_queues@[i]).total_quantity + 124 <= u32::MAX,
        ensures
            final(self).wf(),
            final(self).current_time == old(self).current_time,
            final(self).current_price == old(self).current_price,
    {
        let side_rand = self.current_time.wrapping_mul(1103515245).wrapping_add(12345) % 2;
        let side = if side_rand == 0 {
            OrderSide::Buy
        } else {
            OrderSide::Sell
        };
        let price_offset = self.current_time.wrapping_mul(214013).wrapping_add(2531011) % 5;
        let base_price = match side {
            OrderSide::Buy => self.current_price - 1 - (price_offset as u32),
            OrderSide::Sell => self.current_price + 1 + (price_offset as u32),
        };
        let quantity = 25 + (self.current_time.wrapping_mul(134775813).wrapping_add(1) % 100)
            as u32;
        self.add_order(base_price, quantity, side);
    }

    /// Cancel the front order of a pseudo-randomly chosen level.
    fn cancel_random_order(&mut self)
        requires
            old(self).wf(),
        ensures
            final(self).wf(),
            final(self).current_time == old(self).current_time,
            final(self).current_price == old(self).current_price,
    {
        let side_rand = self.current_time.wrapping_mul(1664525).wrapping_add(1013904223) % 2;
        if side_rand == 0 && self.bid_queues.len() > 0 {
            let len64 = self.bid_queues.len() as u64;
            let queue_idx = (self.current_time.wrapping_mul(214013).wrapping_add(2531011) % len64)
                as usize;
            pop_and_discount(&mut self.bid_queues, queue_idx);
        } else if self.ask_queues.len() > 0 {
            let len64 = self.ask_queues.len() as u64;
            let queue_idx = (self.current_time.wrapping_mul(214013).wrapping_add(2531011) % len64)
                as usize;
            pop_and_discount(&mut self.ask_queues, queue_idx);
        }
    }

    /// Fill against the top of one side, pseudo-randomly chosen.
    fn execute_market_order(&mut self)
        requires
            old(self).wf(),
        ensures
            final(self).wf(),
            final(self).current_time == old(self).current_time,
            final(self).current_price == old(self).current_price,
    {
        let side_rand = self.current_time.wrapping_mul(1103515245).wrapping_add(12345) % 2;
        if side_rand == 0 {
            if self.bid_queues.len() > 0 {
                pop_and_discount(&mut self.bid_queues, 0);
            }
        } else {
            if self.ask_queues.len() > 0 {
                pop_and_discount(&mut self.ask_queues, 0);
            }
        }
    }
}

/// Pop the front order of the level at `idx` (when any rests there) and
/// subtract its quantity from the level's total once more, clamped at zero.
/// Prices are untouched, so the side stays sorted.
fn pop_and_discount(queues: &mut Vec<OrderQueue>, idx: usize)
    requires
        idx < old(queues)@.len(),
    ensures
        final(queues)@.len() == old(queues)@.len(),
        forall|k: int|
            0 <= k < final(queues)@.len() ==> (#[trigger] final(queues)@[k]).price == old(
                queues,
            )@[k].price,
        sorted_desc(old(queues)@) ==> sorted_desc(final(queues)@),
        sorted_asc(old(queues)@) ==> sorted_asc(final(queues)@),
{
    let q = &mut queues[idx];
    if q.orders.len() > 0 {
        match q.remove_front() {
            Some(order) => {
                let t = q.total_quantity;
                q.total_quantity = if t >= order.quantity {
                    t - order.quantity
                } else {
                    0
                };
            },
            None => {},
        }
    }
    proof {
        assert forall|k: int|
            0 <= k < queues@.len() implies (#[trigger] queues@[k]).price == old(
            queues,
        )@[k].price by {}
    }
}

/// Find the level with this price on one sorted side, or create it in
/// sorted position, and rest the order there. `descending` selects the bid
/// ordering (highest first); otherwise the ask ordering (lowest first).
fn insert_into_side(queues: &mut Vec<OrderQueue>, order: Order, descending: bool)
    requires
        descending ==> sorted_desc(old(queues)@),
        !descending ==> sorted_asc(old(queues)@),
        forall|i: int|
            0 <= i < old(queues)@.len() ==> (#[trigger] old(queues)@[i]).total_quantity
                + order.quantity <= u32::MAX,
    ensures
        descending ==> sorted_desc(final(queues)@),
        !descending ==> sorted_asc(final(queues)@),
        order_rested(old(queues)@, final(queues)@, order),
{
    let n = queues.len();
    let price = order.price;
    let mut k: usize = 0;
    if descending {
        while k < n && queues[k].price > price
            invariant
                n == queues@.len(),
                *queues == *old(queues),
                k <= n,
                forall|j: int| 0 <= j < k ==> (#[trigger] queues@[j]).price > price,
            decreases n - k,
        {
            k = k + 1;
        }
    } else {
        while k < n && queues[k].price < price
            invariant
                n == queues@.len(),
                *queues == *old(queues),
                k <= n,
                forall|j: int| 0 <= j < k ==> (#[trigger] queues@[j]).price < price,
            decreases n - k,
        {
            k = k + 1;
        }
    }
    if k < n && queues[k].price == price {
        let q = &mut queues[k];
        q.add_order(order);
        proof {
            assert(old(queues)@[k as int].price == order.price);
            assert(queues@[k as int].orders@ == old(queues)@[k as int].orders@.push(order));
            assert(forall|j: int|
                0 <= j < old(queues)@.len() && j != k ==> queues@[j] == #[trigger] old(
                    queues,
                )@[j]);
            assert(order_rested(old(queues)@, queues@, order));
        }
        proof {
            assert forall|x: int, y: int|
                0 <= x < y < queues@.len() && descending implies queues@[x].price
                > queues@[y].price by {
                assert(old(queues)@[x].price > old(queues)@[y].price);
            }
            assert forall|x: int, y: int|
                0 <= x < y < queues@.len() && !descending implies queues@[x].price
                < queues@[y].price by {
                assert(old(queues)@[x].price < old(queues)@[y].price);
            }
        }
    } else {
        let mut new_queue = OrderQueue::new(price);
        new_queue.add_order(order);
        proof {
            assert(new_queue.orders@ =~= seq![order]);
        }
        queues.insert(k, new_queue);
        proof {
            assert forall|j: int|
                0 <= j < old(queues)@.len() implies (#[trigger] old(queues)@[j]).price
                != order.price by {
                if j > k {
                    if descending {
                        assert(old(queues)@[k as int].price > old(queues)@[j].price);
                    } else {
                        assert(old(queues)@[k as int].price < old(queues)@[j].price);
                    }
                }
            }
            assert((#[trigger] queues@[k as int]).price == order.price);
            assert(forall|j: int| 0 <= j < k ==> queues@[j] == #[trigger] old(queues)@[j]);
            assert(forall|j: int|
                k < j < queues@.len() ==> #[trigger] queues@[j] == old(queues)@[j - 1]);
            assert(order_rested(old(queues)@, queues@, order));
        }
        proof {
            let s = queues@;
            assert forall|x: int, y: int|
                0 <= x < y < s.len() && descending implies s[x].price > s[y].price by {
                if x < k && y < k {
                    assert(s[x] == old(queues)@[x]);
                    assert(s[y] == old(queues)@[y]);
                } else if x < k && y == k {
                    assert(s[x] == old(queues)@[x]);
                } else if x == k && y > k {
                    assert(s[y] == old(queues)@[y - 1]);
                    assert(old(queues)@[y - 1].price <= price);
                    assert(old(queues)@[y - 1].price != price);
                } else if x < k && y > k {
                    assert(s[x] == old(queues)@[x]);
                    assert(s[y] == old(queues)@[y - 1]);
                } else if x > k {
                    assert(s[x] == old(queues)@[x - 1]);
                    assert(s[y] == old(queues)@[y - 1]);
                }
            }
            assert forall|x: int, y: int|
                0 <= x < y < s.len() && !descending implies s[x].price < s[y].price by {
                if x < k && y < k {
                    assert(s[x] == old(queues)@[x]);
                    assert(s[y] == old(queues)@[y]);
                } else if x < k && y == k {
                    assert(s[x] == old(queues)@[x]);
                } else if x == k && y > k {
                    assert(s[y] == old(queues)@[y - 1]);
                    assert(old(queues)@[y - 1].price >= price);
                    assert(old(queues)@[y - 1].price != price);
                } else if x < k && y > k {
                    assert(s[x] == old(queues)@[x]);
                    assert(s[y] == old(queues)@[y - 1]);
                } else if x > k {
                    assert(s[x] == old(queues)@[x - 1]);
                    assert(s[y] == old(queues)@[y - 1]);
                }
            }
        }
    }
}

} // verus!
