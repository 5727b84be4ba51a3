//! Emitted-text behaviour: the identity module, the MAC pipeline with its
//! handshake scaffolding, pattern analysis, and decimal rendering.

use hls_core::ast::{add, input, mul, output};
use hls_core::graph::{Graph, Operation};
use hls_core::lower::lower_expr_to_graph;
use hls_core::pipeline::run_pipeline_pass;
use hls_core::pipeline_integration::{generate_simple_hls, PipelinePresets};
use hls_core::sim::Simulator;
use hls_core::text::dec_str;
use hls_core::verilog::{analyze_computation_pattern, generate_verilog_module, ComputationPattern};

fn output_value(outputs: &[(String, i64)], name: &str) -> i64 {
    for (n, v) in outputs {
        if n == name {
            return *v;
        }
    }
    panic!("no output named {}", name);
}

/// Identity: Load("x") stored to "out". Pipelining disabled. Software
/// evaluation with x = 42 gives out = 42, and the emitted module declares
/// the one input and the one output.
#[test]
fn identity_module() {
    let mut graph = Graph::new();
    let x = graph.add_node_with_output(Operation::Load(String::from("x")));
    graph.add_node(Operation::Store(String::from("out"), x));

    let mut sim = Simulator::new();
    sim.set_input("x", 42, &graph);
    let outputs = sim.simulate(&graph);
    assert_eq!(output_value(&outputs, "out"), 42);

    let text = generate_verilog_module(&graph, "identity");
    assert!(text.contains("module identity #("));
    assert!(text.contains("input  wire [DATA_WIDTH-1:0]  x,"));
    assert!(text.contains("output reg  [DATA_WIDTH-1:0]  out\n"));
    assert!(text.contains("SIMPLE VERSION"));
    assert!(text.ends_with("\nendmodule\n"));
}

/// The MAC expression `result = a*b + c*d + e` with a=2, b=3, c=4, d=5,
/// e=1 evaluates to 27; under `enable_pipeline(1, 5, 1)` the pattern is
/// MAC, five stages are scheduled, and the emitted five-stage pipeline's
/// `ap_done` is registered from the top valid bit.
#[test]
fn mac_expression_pipeline() {
    let expr = output(
        "result",
        add(
            add(
                mul(input("a", 32), input("b", 32)),
                mul(input("c", 32), input("d", 32)),
            ),
            input("e", 32),
        ),
    );
    let mut graph = lower_expr_to_graph(&expr);

    let mut sim = Simulator::new();
    sim.set_input("a", 2, &graph);
    sim.set_input("b", 3, &graph);
    sim.set_input("c", 4, &graph);
    sim.set_input("d", 5, &graph);
    sim.set_input("e", 1, &graph);
    let outputs = sim.simulate(&graph);
    assert_eq!(output_value(&outputs, "result"), 27);

    let analysis = analyze_computation_pattern(&graph);
    assert_eq!(analysis.pattern, ComputationPattern::MAC);
    assert_eq!(analysis.logical_stages, 5);
    assert_eq!(analysis.inputs, vec!["a", "b", "c", "d", "e"]);
    assert_eq!(analysis.outputs, vec!["result"]);

    graph.enable_pipeline(1, 5, 1);
    run_pipeline_pass(&mut graph).unwrap();
    assert_eq!(graph.pipeline_stages.len(), 5);

    let text = generate_verilog_module(&graph, "mac_unit");
    assert!(text.contains("// Pipeline: 5-stage MAC implementation"));
    assert!(text.contains("reg [4:0] pipeline_valid;  // 5-stage pipeline"));
    assert!(text.contains("mult_ab_reg1 <= a_reg0 * b_reg0;"));
    assert!(text.contains("mult_cd_reg1 <= c_reg0 * d_reg0;"));
    assert!(text.contains("result_reg3 <= add_mult_reg2 + e_reg2;"));
    assert!(text.contains("result <= result_reg3;"));
    assert!(text.contains(" - MAC: result = (a * b) + (c * d) + e"));
}

/// The handshake scaffolding for a five-stage pipeline: the valid shift
/// register fed by `ap_start && ap_ready`, `ap_done` registered from bit 4,
/// `ap_idle` when nothing is in flight, and `ap_ready` while the in-flight
/// count is under the stage count. (Cycle-accurate timing of the generated
/// hardware needs a Verilog simulator and is exercised outside the library.)
#[test]
fn handshake_scaffolding() {
    let expr = output(
        "result",
        add(
            add(
                mul(input("a", 32), input("b", 32)),
                mul(input("c", 32), input("d", 32)),
            ),
            input("e", 32),
        ),
    );
    let mut graph = lower_expr_to_graph(&expr);
    graph.enable_pipeline(1, 5, 1);
    run_pipeline_pass(&mut graph).unwrap();
    let text = generate_verilog_module(&graph, "mac_unit");
    assert!(text.contains("pipeline_valid <= {pipeline_valid[3:0], ap_start && ap_ready};"));
    assert!(text.contains("ap_done <= pipeline_valid[4];"));
    assert!(text.contains("assign ap_idle = (pipeline_counter == 0);"));
    assert!(text.contains("assign ap_ready = (pipeline_counter < 5);"));
    assert!(text.contains("pipeline_valid <= 5'b00000;"));
    assert!(text.contains("input  wire                    ap_start,"));
    assert!(text.contains("output reg                     ap_done,"));
    assert!(text.contains("output wire                    ap_idle,"));
    assert!(text.contains("output wire                    ap_ready,"));
}

/// Repeated input names are loaded once by the lowering pass.
#[test]
fn lowering_reuses_inputs() {
    let expr = output("sq", mul(input("x", 32), input("x", 32)));
    let graph = lower_expr_to_graph(&expr);
    let loads = graph
        .nodes
        .iter()
        .filter(|n| matches!(n.op, Operation::Load(_)))
        .count();
    assert_eq!(loads, 1);
    let mut sim = Simulator::new();
    sim.set_input("x", 7, &graph);
    let outputs = sim.simulate(&graph);
    assert_eq!(output_value(&outputs, "sq"), 49);
}

/// The simple (non-pipelined) emitter in the one-call flow.
#[test]
fn simple_flow_emits_simple_module() {
    let mut graph = Graph::new();
    let a = graph.add_node_with_output(Operation::Load(String::from("a")));
    let b = graph.add_node_with_output(Operation::Load(String::from("b")));
    let s = graph.add_node_with_output(Operation::Add(a, b));
    graph.add_node(Operation::Store(String::from("result"), s));
    let text = generate_simple_hls(graph, "adder");
    assert!(text.contains("module adder #("));
    assert!(text.contains("SIMPLE VERSION"));
    assert!(text.contains("localparam IDLE = 2'b00, COMPUTE = 2'b01, DONE = 2'b10;"));
}

/// Pattern analysis thresholds.
#[test]
fn pattern_classification() {
    // one multiply, two adds: simple arithmetic
    let mut g1 = Graph::new();
    let a = g1.add_node_with_output(Operation::Const(1));
    let b = g1.add_node_with_output(Operation::Const(2));
    let m = g1.add_node_with_output(Operation::Mul(a, b));
    let s = g1.add_node_with_output(Operation::Add(m, a));
    let _t = g1.add_node_with_output(Operation::Add(s, b));
    assert_eq!(analyze_computation_pattern(&g1).pattern, ComputationPattern::SimpleArithmetic);
    assert_eq!(analyze_computation_pattern(&g1).logical_stages, 3);

    // two multiplies, one add: complex
    let mut g2 = Graph::new();
    let a = g2.add_node_with_output(Operation::Const(1));
    let b = g2.add_node_with_output(Operation::Const(2));
    let m1 = g2.add_node_with_output(Operation::Mul(a, b));
    let m2 = g2.add_node_with_output(Operation::Mul(a, b));
    let _s = g2.add_node_with_output(Operation::Add(m1, m2));
    assert_eq!(analyze_computation_pattern(&g2).pattern, ComputationPattern::Complex);
    assert_eq!(analyze_computation_pattern(&g2).logical_stages, 4);
}

/// Decimal rendering.
#[test]
fn decimal_rendering() {
    assert_eq!(dec_str(0), "0");
    assert_eq!(dec_str(7), "7");
    assert_eq!(dec_str(10), "10");
    assert_eq!(dec_str(12345), "12345");
}

/// The configuration presets.
#[test]
fn preset_pairs() {
    assert_eq!(PipelinePresets::high_throughput(), (1, 8));
    assert_eq!(PipelinePresets::balanced(), (2, 4));
    assert_eq!(PipelinePresets::low_latency(), (4, 2));
    assert_eq!(PipelinePresets::dsp_intensive(), (1, 6));
}

/// An empty graph still emits a well-formed module with only the handshake
/// ports.
#[test]
fn empty_graph_module() {
    let graph = Graph::new();
    let text = generate_verilog_module(&graph, "empty");
    assert!(text.starts_with("// Generated for AMD Alveo U50 - SIMPLE VERSION\n"));
    assert!(text.contains("module empty #("));
    assert!(text.contains("ap_ready,"));
    assert!(!text.contains("DATA_WIDTH-1:0]  ")); // no data ports
    assert!(text.ends_with("\nendmodule\n"));
    let mut sim = Simulator::new();
    assert!(sim.simulate(&graph).is_empty());
}

/// Evaluation is two's-complement: subtraction below zero and addition
/// past the top wrap.
#[test]
fn evaluation_wraps() {
    let mut graph = Graph::new();
    let a = graph.add_node_with_output(Operation::Const(3));
    let b = graph.add_node_with_output(Operation::Const(5));
    let d = graph.add_node_with_output(Operation::Sub(a, b));
    graph.add_node(Operation::Store(String::from("diff"), d));
    let big = graph.add_node_with_output(Operation::Const(i64::MAX));
    let one = graph.add_node_with_output(Operation::Const(1));
    let over = graph.add_node_with_output(Operation::Add(big, one));
    graph.add_node(Operation::Store(String::from("wrapped"), over));
    let mut sim = Simulator::new();
    let outputs = sim.simulate(&graph);
    assert_eq!(output_value(&outputs, "diff"), -2);
    assert_eq!(output_value(&outputs, "wrapped"), i64::MIN);
}
