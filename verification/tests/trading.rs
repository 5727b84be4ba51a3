//! Order-book, strategy and builder behaviour.

use hls_core::hls::{HLSFunction, HLSValue};
use hls_core::market_data::{MarketDataSimulator, MarketSnapshot, Order, OrderQueue, OrderSide};
use hls_core::pipeline_integration::generate_pipelined_hls;
use hls_core::zero_plus::{fpga_trading_decision, TradingAction, ZeroPlusStrategy};

fn order(id: u64, price: u32, quantity: u32, side: OrderSide) -> Order {
    Order { id, price, quantity, side, timestamp: 0 }
}

#[test]
fn queue_strength_thresholds() {
    let mut q = OrderQueue::new(800);
    assert!(q.is_weak());
    assert!(!q.is_strong());
    q.add_order(order(1, 800, 40, OrderSide::Buy));
    q.add_order(order(2, 800, 40, OrderSide::Buy));
    assert!(!q.is_strong()); // only two orders
    q.add_order(order(3, 800, 40, OrderSide::Buy));
    assert!(q.is_strong()); // three orders, 120 total
    assert!(!q.is_weak());
    assert_eq!(q.queue_position(2), Some(1));
    assert_eq!(q.queue_position(9), None);
    let front = q.remove_front().unwrap();
    assert_eq!(front.id, 1);
    assert_eq!(q.total_quantity, 80);
}

#[test]
fn order_book_seeding_and_spread() {
    let sim = MarketDataSimulator::new(800);
    assert_eq!(sim.bid_queues.len(), 10);
    assert_eq!(sim.ask_queues.len(), 10);
    assert_eq!(sim.get_best_bid().unwrap().price, 799);
    assert_eq!(sim.get_best_ask().unwrap().price, 800);
    assert_eq!(sim.get_spread(), Some(1));
    // each seeded level holds orders of 50, 75 and 100: strong
    let snap = sim.get_market_snapshot();
    assert_eq!(snap.best_bid_price, 799);
    assert_eq!(snap.best_ask_price, 800);
    assert_eq!(snap.best_bid_qty, 225);
    assert_eq!(snap.best_ask_qty, 225);
    assert!(snap.bid_queue_strength);
    assert!(snap.ask_queue_strength);
    assert_eq!(snap.spread, 1);
}

#[test]
fn adding_orders_keeps_sides_sorted() {
    let mut sim = MarketDataSimulator::new(800);
    // join an existing level, then open new levels on both sides
    let id1 = sim.add_order(799, 10, OrderSide::Buy);
    let id2 = sim.add_order(795, 10, OrderSide::Buy);
    let id3 = sim.add_order(812, 10, OrderSide::Sell);
    assert!(id1 < id2 && id2 < id3);
    let bid_prices: Vec<u32> = sim.bid_queues.iter().map(|q| q.price).collect();
    let mut sorted = bid_prices.clone();
    sorted.sort();
    sorted.reverse();
    assert_eq!(bid_prices, sorted);
    let ask_prices: Vec<u32> = sim.ask_queues.iter().map(|q| q.price).collect();
    let mut sorted_asks = ask_prices.clone();
    sorted_asks.sort();
    assert_eq!(ask_prices, sorted_asks);
    assert_eq!(sim.get_best_bid().unwrap().total_quantity, 235);
}

#[test]
fn market_ticks_preserve_the_book() {
    let mut sim = MarketDataSimulator::new(800);
    let t0 = sim.current_time;
    for _ in 0..50 {
        sim.simulate_tick();
    }
    assert_eq!(sim.current_time, t0 + 5000);
    assert_eq!(sim.current_price, 800);
    // both sides stay sorted
    for w in sim.bid_queues.windows(2) {
        assert!(w[0].price > w[1].price);
    }
    for w in sim.ask_queues.windows(2) {
        assert!(w[0].price < w[1].price);
    }
}

fn snapshot(
    bid: u32,
    ask: u32,
    bid_qty: u32,
    ask_qty: u32,
    bid_strong: bool,
    ask_strong: bool,
) -> MarketSnapshot {
    MarketSnapshot {
        timestamp: 0,
        best_bid_price: bid,
        best_ask_price: ask,
        best_bid_qty: bid_qty,
        best_ask_qty: ask_qty,
        bid_queue_strength: bid_strong,
        ask_queue_strength: ask_strong,
        spread: ask - bid,
    }
}

#[test]
fn strategy_joins_strong_bid_then_scratches() {
    let mut strategy = ZeroPlusStrategy::new();
    // flat, one-tick spread, strong bid: join it
    let sig = strategy.process_market_data(&snapshot(799, 800, 150, 40, true, false));
    assert_eq!(sig.action, TradingAction::Buy);
    assert_eq!(sig.price, 799);
    assert_eq!(sig.quantity, 50);
    strategy.handle_fill(799, 50, OrderSide::Buy);
    assert_eq!(strategy.position, 50);
    assert_eq!(strategy.trades_today, 1);
    // the bid level turns weak: scratch by selling at the bid
    let sig = strategy.process_market_data(&snapshot(799, 800, 20, 40, false, false));
    assert_eq!(sig.action, TradingAction::Sell);
    assert_eq!(sig.price, 799);
    assert_eq!(sig.quantity, 50);
    assert_eq!(strategy.scratches_today, 1);
    // the scratch fill closes the position at the entry price: no loss
    strategy.handle_fill(799, 50, OrderSide::Sell);
    assert_eq!(strategy.position, 0);
    assert_eq!(strategy.total_pnl, 0);
}

#[test]
fn strategy_realizes_profit_on_close() {
    let mut strategy = ZeroPlusStrategy::new();
    strategy.handle_fill(800, 50, OrderSide::Buy);
    strategy.handle_fill(802, 50, OrderSide::Sell);
    assert_eq!(strategy.total_pnl, 100);
    assert_eq!(strategy.position, 0);
    assert_eq!(strategy.trades_today, 2);
}

#[test]
fn strategy_holds_on_wide_spread() {
    let mut strategy = ZeroPlusStrategy::new();
    let sig = strategy.process_market_data(&snapshot(798, 800, 150, 150, true, true));
    assert_eq!(sig.action, TradingAction::Hold);
    assert_eq!(sig.quantity, 0);
}

#[test]
fn hardware_decision_table() {
    // flat, one-tick spread, strong bid with depth: buy 50 at the bid
    assert_eq!(fpga_trading_decision(799, 800, 150, 40, true, false, 0, 0, 0), (1, 799, 50));
    // flat, strong ask instead: sell 50 at the ask
    assert_eq!(fpga_trading_decision(799, 800, 40, 150, false, true, 0, 0, 0), (2, 800, 50));
    // long after a buy, bid weakened: scratch by selling the position
    assert_eq!(fpga_trading_decision(799, 800, 20, 40, false, false, 50, 799, 1), (2, 799, 50));
    // short after a sell, ask price rose: scratch by buying back
    assert_eq!(fpga_trading_decision(801, 802, 40, 40, false, false, -50, 800, 2), (1, 802, 50));
    // long and the bid holds: nothing to do
    assert_eq!(fpga_trading_decision(799, 800, 150, 40, true, false, 50, 799, 1), (0, 0, 0));
    // flat but the spread is two ticks: hold
    assert_eq!(fpga_trading_decision(798, 800, 150, 150, true, true, 0, 0, 0), (0, 0, 0));
}

#[test]
fn builder_emits_pipelined_mac() {
    let mut f = HLSFunction::new("mac_builder");
    f.pipeline_advanced(1, 5, 1);
    let a = f.input("a");
    let b = f.input("b");
    let c = f.input("c");
    let d = f.input("d");
    let e = f.input("e");
    let ab = a.mul(b, &mut f);
    let cd = c.mul(d, &mut f);
    let s1 = ab.add(cd, &mut f);
    let s2 = s1.add(e, &mut f);
    f.output("result", s2);
    let text = f.generate_verilog().unwrap();
    assert!(text.contains("module mac_builder #("));
    assert!(text.contains("// Pipeline: 5-stage MAC implementation"));
    assert_eq!(f.graph.pipeline_stages.len(), 5);
}

#[test]
fn builder_default_depth_and_registers() {
    let mut f = HLSFunction::new("reg_demo");
    f.pipeline(2);
    assert_eq!(f.graph.pipeline_config.initiation_interval, 2);
    assert_eq!(f.graph.pipeline_config.pipeline_depth, 8);
    let x = f.input("x");
    let delayed = x.pipeline_reg(&mut f);
    let k = HLSValue::constant(&mut f, 5);
    let s = delayed.add(k, &mut f);
    f.output("y", s);
    assert_eq!(f.graph.nodes.len(), 5);
}

#[test]
fn one_call_pipelined_flow() {
    let mut graph = hls_core::graph::Graph::new();
    let a = graph.add_node_with_output(hls_core::graph::Operation::Load(String::from("a")));
    let b = graph.add_node_with_output(hls_core::graph::Operation::Load(String::from("b")));
    let s = graph.add_node_with_output(hls_core::graph::Operation::Add(a, b));
    graph.add_node(hls_core::graph::Operation::Store(String::from("result"), s));
    let text = generate_pipelined_hls(graph, "adder", 1, 4).unwrap();
    assert!(text.contains("module adder #("));
    assert!(text.contains("PIPELINED VERSION"));
}
