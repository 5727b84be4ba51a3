//! The whole flow in one call: enable pipelining, schedule, emit; and a few
//! configuration presets.

use vstd::prelude::*;
use crate::graph::{Graph, PipelineConfig};
use crate::pipeline::{run_pipeline_pass, scheduled_with, ResourceConstraints};
use crate::verilog::{generate_verilog_module, module_text};

verus! {

/// Schedule the graph with the given initiation interval and depth and emit
/// the module. With the default budgets scheduling cannot fail; the emitted
/// text is `module_text` of the scheduled graph, whose cycle assignment
/// satisfies the schedule relation (`scheduled_with`).
pub fn generate_pipelined_hls(graph: Graph, module_name: &str, ii: usize, depth: usize) -> (r:
    Result<String, String>)
    requires
        graph.wf(),
        18 * graph.nodes@.len() + (graph.nodes@.len() + 1) * (19 + graph.nodes@.len())
            < usize::MAX,
    ensures
        r is Ok,
        r matches Ok(t) ==> exists|g2: Graph, s: Seq<usize>|
            {
                &&& scheduled_with(
                    Graph {
                        pipeline_config: PipelineConfig {
                            enable: true,
                            initiation_interval: ii,
                            pipeline_depth: depth,
                            unroll_factor: 1,
                        },
                        ..graph
                    },
                    g2,
                    ResourceConstraints { adder: 100, multiplier: 12, divider: 4, memory: 8 },
                    s,
                )
                &&& t@ == module_text(
                    g2.nodes@,
                    true,
                    g2.pipeline_stages@.len() as int,
                    module_name@,
                )
            },
{
    let mut g = graph;
    g.enable_pipeline(ii, depth, 1);
    let ghost pre_pass = g;
    let pass = run_pipeline_pass(&mut g);
    match pass {
        Ok(_) => {},
        Err(e) => {
            return Err(e);
        },
    }
    let text = generate_verilog_module(&g, module_name);
    proof {
        let rc = ResourceConstraints { adder: 100, multiplier: 12, divider: 4, memory: 8 };
        let s = choose|s: Seq<usize>| scheduled_with(pre_pass, g, rc, s);
        let g_en = Graph {
            pipeline_config: PipelineConfig {
                enable: true,
                initiation_interval: ii,
                pipeline_depth: depth,
                unroll_factor: 1,
            },
            ..graph
        };
        assert(g_en == pre_pass);
        assert(scheduled_with(g_en, g, rc, s));
    }
    Ok(text)
}

/// Emit the module without scheduling.
pub fn generate_simple_hls(graph: Graph, module_name: &str) -> (r: String)
    ensures
        r@ == module_text(
            graph.nodes@,
            graph.pipeline_config.enable,
            graph.pipeline_stages@.len() as int,
            module_name@,
        ),
{
    generate_verilog_module(&graph, module_name)
}

/// Pipeline configuration presets: (initiation interval, depth) pairs for
/// common throughput and latency trade-offs.
pub struct PipelinePresets {}

impl PipelinePresets {
    /// Maximum throughput: a new input every cycle, a deep pipeline.
    pub fn high_throughput() -> (r: (usize, usize))
        ensures
            r == (1usize, 8usize),
    {
        (1, 8)
    }

    /// A balanced latency and throughput trade-off.
    pub fn balanced() -> (r: (usize, usize))
        ensures
            r == (2usize, 4usize),
    {
        (2, 4)
    }

    /// Reduced latency at the cost of throughput.
    pub fn low_latency() -> (r: (usize, usize))
        ensures
            r == (4usize, 2usize),
    {
        (4, 2)
    }

    /// Tuned for multiply-heavy workloads.
    pub fn dsp_intensive() -> (r: (usize, usize))
        ensures
            r == (1usize, 6usize),
    {
        (1, 6)
    }
}

} // verus!
