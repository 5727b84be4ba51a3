//! Scheduling behaviour: resource-constrained placement, register
//! insertion, stage materialization and determinism.

use hls_core::graph::{Graph, NodeId, Operation};
use hls_core::pipeline::{PipelineScheduler, ResourceConstraints};
use hls_core::sim::Simulator;
use hls_core::verilog::generate_verilog_module;

fn cycle_of(graph: &Graph, node_idx: usize) -> usize {
    for stage in &graph.pipeline_stages {
        if stage.operations.iter().any(|n| *n == NodeId(node_idx)) {
            return stage.cycle;
        }
    }
    panic!("node {} not found in any stage", node_idx);
}

fn output_value(outputs: &[(String, i64)], name: &str) -> i64 {
    for (n, v) in outputs {
        if n == name {
            return *v;
        }
    }
    panic!("no output named {}", name);
}

/// `(a+b)*(c+d)` over constants: the two adders share cycle 0, the single
/// multiplier (budget one) lands at cycle 1, where both adders' results are
/// ready, and the software evaluation gives 21.
#[test]
fn chain_schedule_shares_adder_cycle() {
    let mut graph = Graph::new();
    let a = graph.add_node_with_output(Operation::Const(1));
    let b = graph.add_node_with_output(Operation::Const(2));
    let c = graph.add_node_with_output(Operation::Const(3));
    let d = graph.add_node_with_output(Operation::Const(4));
    let s1 = graph.add_node_with_output(Operation::Add(a, b));
    let s2 = graph.add_node_with_output(Operation::Add(c, d));
    let p = graph.add_node_with_output(Operation::Mul(s1, s2));
    graph.add_node(Operation::Store(String::from("result"), p));

    let mut sim = Simulator::new();
    let outputs = sim.simulate(&graph);
    assert_eq!(output_value(&outputs, "result"), 21);

    graph.enable_pipeline(1, 4, 1);
    let mut scheduler = PipelineScheduler::new();
    scheduler.resource_constraints = ResourceConstraints {
        adder: 100,
        multiplier: 1,
        divider: 4,
        memory: 8,
    };
    scheduler.schedule_pipeline(&mut graph).unwrap();

    // node indices: consts 0..4, adds 4 and 5, mul 6, store 7
    assert_eq!(cycle_of(&graph, 4), 0);
    assert_eq!(cycle_of(&graph, 5), 0);
    assert_eq!(cycle_of(&graph, 6), 1);
    // the store waits for the multiplier (latency 3) to finish
    assert_eq!(cycle_of(&graph, 7), 4);
    // stages are dense, sorted, and cover the non-empty cycles 0, 1, 4
    let cycles: Vec<usize> = graph.pipeline_stages.iter().map(|s| s.cycle).collect();
    assert_eq!(cycles, vec![0, 1, 4]);
    let indices: Vec<usize> = graph.pipeline_stages.iter().map(|s| s.stage).collect();
    assert_eq!(indices, vec![0, 1, 2]);
}

/// Two independent multiplies under a budget of one multiplier: they take
/// cycles 0 and 1, and the downstream add waits until the later one
/// finishes (cycle 1 + latency 3 = 4). Register chains of one per crossed
/// cycle are appended for the two multi-cycle edges.
#[test]
fn mobility_two_muls_one_multiplier() {
    let mut graph = Graph::new();
    let c1 = graph.add_node_with_output(Operation::Const(2));
    let c2 = graph.add_node_with_output(Operation::Const(3));
    let c3 = graph.add_node_with_output(Operation::Const(4));
    let c4 = graph.add_node_with_output(Operation::Const(5));
    let m1 = graph.add_node_with_output(Operation::Mul(c1, c2));
    let m2 = graph.add_node_with_output(Operation::Mul(c3, c4));
    let s = graph.add_node_with_output(Operation::Add(m1, m2));
    graph.add_node(Operation::Store(String::from("out"), s));

    graph.enable_pipeline(1, 8, 1);
    let mut scheduler = PipelineScheduler::new();
    scheduler.resource_constraints = ResourceConstraints {
        adder: 100,
        multiplier: 1,
        divider: 4,
        memory: 8,
    };
    scheduler.schedule_pipeline(&mut graph).unwrap();

    assert_eq!(cycle_of(&graph, 4), 0); // first multiply
    assert_eq!(cycle_of(&graph, 5), 1); // second multiply, bumped by the budget
    assert_eq!(cycle_of(&graph, 6), 4); // add waits for the later product
    assert_eq!(cycle_of(&graph, 7), 5); // store one cycle later

    // Register chains: the edge m1 -> add spans 4 cycles (3 registers),
    // m2 -> add spans 3 cycles (2 registers); all other edges span at most
    // one cycle. The chains are appended after the original 8 nodes.
    assert_eq!(graph.nodes.len(), 8 + 3 + 2);
    for node in &graph.nodes[8..] {
        assert!(matches!(node.op, Operation::PipelineRegister(_)));
    }
    // first chain is rooted at m1's value and linked through fresh values
    match graph.nodes[8].op {
        Operation::PipelineRegister(v) => assert_eq!(v, m1),
        _ => unreachable!(),
    }
    match (graph.nodes[8].output, &graph.nodes[9].op) {
        (Some(prev), Operation::PipelineRegister(v)) => assert_eq!(*v, prev),
        _ => unreachable!(),
    }
    match (graph.nodes[9].output, &graph.nodes[10].op) {
        (Some(prev), Operation::PipelineRegister(v)) => assert_eq!(*v, prev),
        _ => unreachable!(),
    }
    // second chain is rooted at m2's value
    match graph.nodes[11].op {
        Operation::PipelineRegister(v) => assert_eq!(v, m2),
        _ => unreachable!(),
    }
    match (graph.nodes[11].output, &graph.nodes[12].op) {
        (Some(prev), Operation::PipelineRegister(v)) => assert_eq!(*v, prev),
        _ => unreachable!(),
    }
}

/// Insertion order of the original nodes survives scheduling; only
/// register-chain nodes are appended.
#[test]
fn insertion_order_preserved_modulo_register_appends() {
    let mut graph = Graph::new();
    let c1 = graph.add_node_with_output(Operation::Const(2));
    let c2 = graph.add_node_with_output(Operation::Const(3));
    let m = graph.add_node_with_output(Operation::Mul(c1, c2));
    graph.add_node(Operation::Store(String::from("out"), m));
    let before: Vec<usize> = graph.nodes.iter().map(|n| n.id.0).collect();

    graph.enable_pipeline(1, 6, 1);
    let mut scheduler = PipelineScheduler::new();
    scheduler.schedule_pipeline(&mut graph).unwrap();

    let after: Vec<usize> = graph.nodes[..before.len()].iter().map(|n| n.id.0).collect();
    assert_eq!(before, after);
    for node in &graph.nodes[before.len()..] {
        assert!(matches!(node.op, Operation::PipelineRegister(_)));
    }
}

/// A bounded resource class with budget zero, in use, is reported as
/// infeasible and names the node.
#[test]
fn zero_budget_is_infeasible() {
    let mut graph = Graph::new();
    let c1 = graph.add_node_with_output(Operation::Const(2));
    let c2 = graph.add_node_with_output(Operation::Const(3));
    let _m = graph.add_node_with_output(Operation::Mul(c1, c2));
    graph.enable_pipeline(1, 4, 1);
    let mut scheduler = PipelineScheduler::new();
    scheduler.resource_constraints = ResourceConstraints {
        adder: 100,
        multiplier: 0,
        divider: 4,
        memory: 8,
    };
    let err = scheduler.schedule_pipeline(&mut graph).unwrap_err();
    assert!(err.contains("ResourceInfeasible"));
    assert!(err.contains("2"));
}

/// Building the same graph twice, scheduling and emitting twice, gives
/// byte-identical text and equal stage lists.
#[test]
fn determinism_same_graph_same_text() {
    fn build() -> Graph {
        let mut graph = Graph::new();
        let a = graph.add_node_with_output(Operation::Load(String::from("a")));
        let b = graph.add_node_with_output(Operation::Load(String::from("b")));
        let c = graph.add_node_with_output(Operation::Load(String::from("c")));
        let d = graph.add_node_with_output(Operation::Load(String::from("d")));
        let e = graph.add_node_with_output(Operation::Load(String::from("e")));
        let ab = graph.add_node_with_output(Operation::Mul(a, b));
        let cd = graph.add_node_with_output(Operation::Mul(c, d));
        let s1 = graph.add_node_with_output(Operation::Add(ab, cd));
        let s2 = graph.add_node_with_output(Operation::Add(s1, e));
        graph.add_node(Operation::Store(String::from("result"), s2));
        graph.enable_pipeline(1, 5, 1);
        graph
    }
    let mut g1 = build();
    let mut g2 = build();
    let mut sched1 = PipelineScheduler::new();
    let mut sched2 = PipelineScheduler::new();
    sched1.schedule_pipeline(&mut g1).unwrap();
    sched2.schedule_pipeline(&mut g2).unwrap();
    assert_eq!(g1.pipeline_stages.len(), g2.pipeline_stages.len());
    for (s1, s2) in g1.pipeline_stages.iter().zip(g2.pipeline_stages.iter()) {
        assert_eq!(s1.stage, s2.stage);
        assert_eq!(s1.cycle, s2.cycle);
        assert_eq!(s1.operations, s2.operations);
    }
    let t1 = generate_verilog_module(&g1, "mac");
    let t2 = generate_verilog_module(&g2, "mac");
    assert_eq!(t1, t2);
}

/// The latency table.
#[test]
fn operation_latencies() {
    let graph = Graph::new();
    let v = hls_core::graph::ValueId(0);
    assert_eq!(graph.get_operation_latency(&Operation::Add(v, v)), 1);
    assert_eq!(graph.get_operation_latency(&Operation::Sub(v, v)), 1);
    assert_eq!(graph.get_operation_latency(&Operation::Mul(v, v)), 3);
    assert_eq!(graph.get_operation_latency(&Operation::Div(v, v)), 18);
    assert_eq!(graph.get_operation_latency(&Operation::Load(String::from("x"))), 2);
    assert_eq!(graph.get_operation_latency(&Operation::Store(String::from("y"), v)), 1);
    assert_eq!(graph.get_operation_latency(&Operation::Const(7)), 0);
    assert_eq!(graph.get_operation_latency(&Operation::Mux(v, v, v)), 1);
    assert_eq!(graph.get_operation_latency(&Operation::PipelineRegister(v)), 1);
    assert_eq!(graph.get_operation_latency(&Operation::PipelineBarrier), 0);
    assert_eq!(graph.get_operation_latency(&Operation::Nop), 0);
    assert_eq!(graph.get_operation_latency(&Operation::Not(v)), 1);
    assert_eq!(graph.get_operation_latency(&Operation::And(v, v)), 1);
    assert_eq!(graph.get_operation_latency(&Operation::Or(v, v)), 1);
    assert_eq!(graph.get_operation_latency(&Operation::CmpLt(v, v)), 1);
    assert_eq!(graph.get_operation_latency(&Operation::CmpEq(v, v)), 1);
}

/// Graph construction mints dense identifiers and records producers.
#[test]
fn graph_construction_basics() {
    let mut graph = Graph::new();
    let v0 = graph.add_node_with_output(Operation::Const(1));
    let v1 = graph.add_node_with_output(Operation::Const(2));
    assert_eq!(v0.0, 0);
    assert_eq!(v1.0, 1);
    assert_eq!(graph.next_value, 2);
    assert_eq!(graph.next_node, 2);
    let n = graph.add_node(Operation::Store(String::from("o"), v1));
    assert_eq!(n.0, 2);
    assert_eq!(graph.next_value, 2);
    assert_eq!(graph.value_map[v0.0], Some(NodeId(0)));
    assert_eq!(graph.value_map[v1.0], Some(NodeId(1)));
    let reg = graph.insert_pipeline_register(v1);
    assert_eq!(reg.0, 2);
    assert_eq!(graph.value_map[reg.0], Some(NodeId(3)));
    let fresh = graph.new_value();
    assert_eq!(fresh.0, 3);
    assert_eq!(graph.value_map[fresh.0], None);
}
