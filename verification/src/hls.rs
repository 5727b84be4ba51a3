//! A small builder facade over the graph: name a function, declare ports,
//! combine values, turn pipelining on, and emit the scheduled module.

use vstd::prelude::*;
use crate::graph::{Graph, Node, NodeId, Operation, PipelineConfig, ValueId};
use crate::pipeline::{op_class, PipelineScheduler, ResourceClass};
use crate::verilog::{generate_verilog_module, module_text};

verus! {

/// A function under construction: its graph and its module name.
pub struct HLSFunction {
    pub graph: Graph,
    pub name: String,
}

/// A value inside an `HLSFunction`.
#[derive(Debug, Clone, Copy)]
pub struct HLSValue {
    pub value: ValueId,
}

impl HLSFunction {
    /// An empty function with the given module name.
    pub fn new(name: &str) -> (r: Self)
        ensures
            r.graph.wf(),
            r.graph.nodes@.len() == 0,
            r.graph.next_value == 0,
            !r.graph.pipeline_config.enable,
            r.graph.pipeline_stages@.len() == 0,
            r.name@ == name@,
    {
        HLSFunction { graph: Graph::new(), name: String::from_str(name) }
    }

    /// Turn pipelining on with the given initiation interval and the
    /// default depth and unroll factor.
    pub fn pipeline(&mut self, ii: usize)
        ensures
            final(self).graph.pipeline_config == (PipelineConfig {
                enable: true,
                initiation_interval: ii,
                pipeline_depth: 8,
                unroll_factor: 1,
            }),
            final(self).graph.nodes == old(self).graph.nodes,
            final(self).graph.next_value == old(self).graph.next_value,
            final(self).graph.next_node == old(self).graph.next_node,
            final(self).graph.value_map == old(self).graph.value_map,
            final(self).graph.pipeline_stages == old(self).graph.pipeline_stages,
            final(self).name == old(self).name,
            old(self).graph.wf() ==> final(self).graph.wf(),
    {
        self.graph.enable_pipeline(ii, 8, 1);
    }

    /// Turn pipelining on with full control of the configuration.
    pub fn pipeline_advanced(&mut self, ii: usize, depth: usize, unroll: usize)
        ensures
            final(self).graph.pipeline_config == (PipelineConfig {
                enable: true,
                initiation_interval: ii,
                pipeline_depth: depth,
                unroll_factor: unroll,
            }),
            final(self).graph.nodes == old(self).graph.nodes,
            final(self).graph.next_value == old(self).graph.next_value,
            final(self).graph.next_node == old(self).graph.next_node,
            final(self).graph.value_map == old(self).graph.value_map,
            final(self).graph.pipeline_stages == old(self).graph.pipeline_stages,
            final(self).name == old(self).name,
            old(self).graph.wf() ==> final(self).graph.wf(),
    {
        self.graph.enable_pipeline(ii, depth, unroll);
    }

    /// Declare an input port and return the value it loads.
    pub fn input(&mut self, name: &str) -> (r: HLSValue)
        requires
            old(self).graph.wf(),
        ensures
            final(self).graph.wf(),
            r.value.0 == old(self).graph.next_value,
            r.value.0 < final(self).graph.next_value,
            final(self).graph.nodes@.len() == old(self).graph.nodes@.len() + 1,
            final(self).graph.nodes@.subrange(0, old(self).graph.nodes@.len() as int) == old(
                self,
            ).graph.nodes@,
            final(self).graph.nodes@.last().op matches Operation::Load(n) && n@ == name@,
            final(self).graph.pipeline_config == old(self).graph.pipeline_config,
            final(self).graph.pipeline_stages == old(self).graph.pipeline_stages,
            final(self).name == old(self).name,
    {
        let value = self.graph.add_node_with_output(Operation::Load(String::from_str(name)));
        proof {
            assert(self.graph.nodes@.subrange(0, old(self).graph.nodes@.len() as int) =~= old(
                self,
            ).graph.nodes@);
        }
        HLSValue { value }
    }

    /// Declare an output port driven by a value.
    pub fn output(&mut self, name: &str, value: HLSValue)
        requires
            old(self).graph.wf(),
            value.value.0 < old(self).graph.next_value,
        ensures
            final(self).graph.wf(),
            final(self).graph.nodes@.len() == old(self).graph.nodes@.len() + 1,
            final(self).graph.nodes@.subrange(0, old(self).graph.nodes@.len() as int) == old(
                self,
            ).graph.nodes@,
            final(self).graph.nodes@.last().op matches Operation::Store(n, v) && n@ == name@ && v
                == value.value,
            final(self).graph.pipeline_config == old(self).graph.pipeline_config,
            final(self).graph.pipeline_stages == old(self).graph.pipeline_stages,
            final(self).name == old(self).name,
    {
        let _node = self.graph.add_node(Operation::Store(String::from_str(name), value.value));
        proof {
            assert(self.graph.nodes@.subrange(0, old(self).graph.nodes@.len() as int) =~= old(
                self,
            ).graph.nodes@);
        }
    }

    /// Schedule (when pipelining is on) and emit the module text. With the
    /// default budgets scheduling cannot fail, so this always succeeds, and
    /// the text is pinned to `module_text` of the scheduled graph.
    pub fn generate_verilog(&mut self) -> (r: Result<String, String>)
        requires
            old(self).graph.wf(),
            18 * old(self).graph.nodes@.len() + (old(self).graph.nodes@.len() + 1) * (19 + old(
                self,
            ).graph.nodes@.len()) < usize::MAX,
        ensures
            final(self).graph.wf(),
            final(self).name == old(self).name,
            r is Ok,
            r matches Ok(t) ==> t@ == module_text(
                final(self).graph.nodes@,
                final(self).graph.pipeline_config.enable,
                final(self).graph.pipeline_stages@.len() as int,
                old(self).name@,
            ),
    {
        if self.graph.pipeline_config.enable {
            let mut scheduler = PipelineScheduler::new();
            let sched_result = scheduler.schedule_pipeline(&mut self.graph);
            proof {
                assert forall|i: int| 0 <= i < old(self).graph.nodes@.len() implies !(op_class(
                    #[trigger] old(self).graph.nodes@[i].op,
                ) != ResourceClass::Logic && scheduler.resource_constraints.spec_budget(
                    op_class(old(self).graph.nodes@[i].op),
                ) == 0) by {}
            }
            match sched_result {
                Ok(_) => {},
                Err(e) => {
                    return Err(e);
                },
            }
        }
        Ok(generate_verilog_module(&self.graph, self.name.as_str()))
    }
}

impl HLSValue {
    /// The sum of two values.
    pub fn add(self, other: HLSValue, func: &mut HLSFunction) -> (r: HLSValue)
        requires
            old(func).graph.wf(),
            self.value.0 < old(func).graph.next_value,
            other.value.0 < old(func).graph.next_value,
        ensures
            final(func).graph.wf(),
            r.value.0 == old(func).graph.next_value,
            r.value.0 < final(func).graph.next_value,
            final(func).graph.nodes@ == old(func).graph.nodes@.push(
                Node {
                    id: NodeId(old(func).graph.next_node),
                    op: Operation::Add(self.value, other.value),
                    output: Some(r.value),
                },
            ),
            final(func).graph.pipeline_config == old(func).graph.pipeline_config,
            final(func).graph.pipeline_stages == old(func).graph.pipeline_stages,
            final(func).name == old(func).name,
    {
        let value = func.graph.add_node_with_output(Operation::Add(self.value, other.value));
        HLSValue { value }
    }

    /// The product of two values.
    pub fn mul(self, other: HLSValue, func: &mut HLSFunction) -> (r: HLSValue)
        requires
            old(func).graph.wf(),
            self.value.0 < old(func).graph.next_value,
            other.value.0 < old(func).graph.next_value,
        ensures
            final(func).graph.wf(),
            r.value.0 == old(func).graph.next_value,
            r.value.0 < final(func).graph.next_value,
            final(func).graph.nodes@ == old(func).graph.nodes@.push(
                Node {
                    id: NodeId(old(func).graph.next_node),
                    op: Operation::Mul(self.value, other.value),
                    output: Some(r.value),
                },
            ),
            final(func).graph.pipeline_config == old(func).graph.pipeline_config,
            final(func).graph.pipeline_stages == old(func).graph.pipeline_stages,
            final(func).name == old(func).name,
    {
        let value = func.graph.add_node_with_output(Operation::Mul(self.value, other.value));
        HLSValue { value }
    }

    /// Delay a value by one cycle through an explicit pipeline register.
    pub fn pipeline_reg(self, func: &mut HLSFunction) -> (r: HLSValue)
        requires
            old(func).graph.wf(),
            self.value.0 < old(func).graph.next_value,
        ensures
            final(func).graph.wf(),
            r.value.0 == old(func).graph.next_value,
            r.value.0 < final(func).graph.next_value,
            final(func).graph.nodes@ == old(func).graph.nodes@.push(
                Node {
                    id: NodeId(old(func).graph.next_node),
                    op: Operation::PipelineRegister(self.value),
                    output: Some(r.value),
                },
            ),
            final(func).graph.pipeline_config == old(func).graph.pipeline_config,
            final(func).graph.pipeline_stages == old(func).graph.pipeline_stages,
            final(func).name == old(func).name,
    {
        let value = func.graph.insert_pipeline_register(self.value);
        HLSValue { value }
    }

    /// A constant value.
    pub fn constant(func: &mut HLSFunction, value: i64) -> (r: HLSValue)
        requires
            old(func).graph.wf(),
        ensures
            final(func).graph.wf(),
            r.value.0 == old(func).graph.next_value,
            r.value.0 < final(func).graph.next_value,
            final(func).graph.nodes@ == old(func).graph.nodes@.push(
                Node {
                    id: NodeId(old(func).graph.next_node),
                    op: Operation::Const(value),
                    output: Some(r.value),
                },
            ),
            final(func).graph.pipeline_config == old(func).graph.pipeline_config,
            final(func).graph.pipeline_stages == old(func).graph.pipeline_stages,
            final(func).name == old(func).name,
    {
        let val = func.graph.add_node_with_output(Operation::Const(value));
        HLSValue { value: val }
    }
}

} // verus!
