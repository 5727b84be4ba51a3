//! The intermediate dataflow graph: nodes with a fixed operation vocabulary,
//! dense value and node identifiers, a producer map from each value to the
//! node that makes it, a pipeline configuration and the scheduled stages.

use vstd::prelude::*;

verus! {

/// Identifier of a value: a wire produced by exactly one operation.
#[derive(Debug, Clone, Copy, PartialEq, Eq, Structural)]
pub struct ValueId(pub usize);

/// Identifier of a node in the operation graph.
#[derive(Debug, Clone, Copy, PartialEq, Eq, Structural)]
pub struct NodeId(pub usize);

/// Pipeline configuration: whether pipelining is on, the initiation
/// interval (cycles between new inputs), the target depth, and an advisory
/// unroll factor.
#[derive(Debug, Clone)]
pub struct PipelineConfig {
    pub enable: bool,
    pub initiation_interval: usize,
    pub pipeline_depth: usize,
    pub unroll_factor: usize,
}

impl Default for PipelineConfig {
    fn default() -> (r: Self)
        ensures
            !r.enable,
            r.initiation_interval == 1,
            r.pipeline_depth == 1,
            r.unroll_factor == 1,
    {
        PipelineConfig { enable: false, initiation_interval: 1, pipeline_depth: 1, unroll_factor: 1 }
    }
}

/// One pipeline stage: its dense index, the cycle it occupies, and the nodes
/// scheduled at that cycle.
#[derive(Debug, Clone)]
pub struct PipelineStage {
    pub stage: usize,
    pub cycle: usize,
    pub operations: Vec<NodeId>,
}

/// The closed operation vocabulary.
#[derive(Debug, Clone)]
pub enum Operation {
    Add(ValueId, ValueId),
    Sub(ValueId, ValueId),
    Mul(ValueId, ValueId),
    Div(ValueId, ValueId),
    And(ValueId, ValueId),
    Or(ValueId, ValueId),
    Not(ValueId),
    CmpLt(ValueId, ValueId),
    CmpEq(ValueId, ValueId),
    Load(String),
    Store(String, ValueId),
    Const(i64),
    Mux(ValueId, ValueId, ValueId),
    PipelineRegister(ValueId),
    PipelineBarrier,
    Nop,
}

/// A node: identifier, operation, and the value it produces (none for sinks).
#[derive(Debug, Clone)]
pub struct Node {
    pub id: NodeId,
    pub op: Operation,
    pub output: Option<ValueId>,
}

/// Latency of an operation, in cycles.
pub open spec fn op_latency(op: Operation) -> nat {
    match op {
        Operation::Add(_, _) | Operation::Sub(_, _) => 1,
        Operation::Mul(_, _) => 3,
        Operation::Div(_, _) => 18,
        Operation::And(_, _) | Operation::Or(_, _) | Operation::Not(_) => 1,
        Operation::CmpLt(_, _) | Operation::CmpEq(_, _) => 1,
        Operation::Load(_) => 2,
        Operation::Store(_, _) => 1,
        Operation::Const(_) => 0,
        Operation::Mux(_, _, _) => 1,
        Operation::PipelineRegister(_) => 1,
        Operation::PipelineBarrier => 0,
        Operation::Nop => 0,
    }
}

/// The values an operation reads, in operand order. Sources (`Load`, `Const`,
/// `Nop`, `PipelineBarrier`) read nothing.
pub open spec fn op_operands(op: Operation) -> Seq<ValueId> {
    match op {
        Operation::Add(a, b) => seq![a, b],
        Operation::Sub(a, b) => seq![a, b],
        Operation::Mul(a, b) => seq![a, b],
        Operation::Div(a, b) => seq![a, b],
        Operation::And(a, b) => seq![a, b],
        Operation::Or(a, b) => seq![a, b],
        Operation::Not(a) => seq![a],
        Operation::CmpLt(a, b) => seq![a, b],
        Operation::CmpEq(a, b) => seq![a, b],
        Operation::Load(_) => seq![],
        Operation::Store(_, v) => seq![v],
        Operation::Const(_) => seq![],
        Operation::Mux(s, a, b) => seq![s, a, b],
        Operation::PipelineRegister(v) => seq![v],
        Operation::PipelineBarrier => seq![],
        Operation::Nop => seq![],
    }
}

/// Every operand of `op` is a value already minted (below `bound`).
pub open spec fn operands_below(op: Operation, bound: nat) -> bool {
    forall|k: int|
        0 <= k < op_operands(op).len() ==> (#[trigger] op_operands(op)[k]).0 < bound
}

/// The main container: the ordered node list (insertion order is
/// significant), the counters that mint identifiers, the producer map, the
/// pipeline configuration and the scheduled stages.
#[derive(Debug)]
pub struct Graph {
    pub nodes: Vec<Node>,
    pub next_value: usize,
    pub next_node: usize,
    pub value_map: Vec<Option<NodeId>>,
    pub pipeline_config: PipelineConfig,
    pub pipeline_stages: Vec<PipelineStage>,
}

impl Graph {
    /// The node that produces `v`, if `v` is minted and bound.
    pub open spec fn producer_of(self, v: ValueId) -> Option<NodeId> {
        if v.0 < self.value_map@.len() {
            self.value_map@[v.0 as int]
        } else {
            None
        }
    }

    /// Node `i` is internally consistent: its identifier is its position,
    /// its output (if any) is registered in the producer map, and each of
    /// its operands is a minted value whose producer (if bound) stands
    /// earlier in the node list.
    pub open spec fn node_wf(self, i: int) -> bool {
        let node = self.nodes@[i];
        &&& node.id == NodeId(i as usize)
        &&& match node.output {
            Some(v) => v.0 < self.value_map@.len() && self.value_map@[v.0 as int] == Some(
                NodeId(i as usize),
            ),
            None => true,
        }
        &&& forall|k: int|
            0 <= k < op_operands(node.op).len() ==> {
                let v = #[trigger] op_operands(node.op)[k];
                &&& v.0 < self.value_map@.len()
                &&& match self.value_map@[v.0 as int] {
                    Some(m) => m.0 < i,
                    None => true,
                }
            }
    }

    /// The graph's structural invariant: counters match the containers,
    /// every node is consistent (`node_wf`), and every bound entry of the
    /// producer map points back at a node producing that value.
    pub open spec fn wf(self) -> bool {
        &&& self.nodes@.len() == self.next_node
        &&& self.value_map@.len() == self.next_value
        &&& forall|i: int| 0 <= i < self.nodes@.len() ==> #[trigger] self.node_wf(i)
        &&& forall|v: int|
            0 <= v < self.value_map@.len() ==> match #[trigger] self.value_map@[v] {
                Some(m) => m.0 < self.nodes@.len() && self.nodes@[m.0 as int].output == Some(
                    ValueId(v as usize),
                ),
                None => true,
            }
    }

    /// An empty graph with pipelining disabled.
    pub fn new() -> (r: Self)
        ensures
            r.wf(),
            r.nodes@ =~= Seq::<Node>::empty(),
            r.next_value == 0,
            r.next_node == 0,
            r.value_map@ =~= Seq::<Option<NodeId>>::empty(),
            !r.pipeline_config.enable,
            r.pipeline_config.initiation_interval == 1,
            r.pipeline_config.pipeline_depth == 1,
            r.pipeline_config.unroll_factor == 1,
            r.pipeline_stages@ =~= Seq::<PipelineStage>::empty(),
    {
        Graph {
            nodes: Vec::new(),
            next_value: 0,
            next_node: 0,
            value_map: Vec::new(),
            pipeline_config: PipelineConfig::default(),
            pipeline_stages: Vec::new(),
        }
    }

    /// Mint a fresh value identifier with no producer.
    pub fn new_value(&mut self) -> (r: ValueId)
        requires
            old(self).wf(),
        ensures
            final(self).wf(),
            r.0 == old(self).next_value,
            final(self).next_value == old(self).next_value + 1,
            final(self).value_map@ == old(self).value_map@.push(None),
            final(self).nodes == old(self).nodes,
            final(self).next_node == old(self).next_node,
            final(self).pipeline_config == old(self).pipeline_config,
            final(self).pipeline_stages == old(self).pipeline_stages,
    {
        let id = ValueId(self.value_map.len());
        self.value_map.push(None);
        self.next_value = self.value_map.len();
        assert forall|i: int| 0 <= i < self.nodes@.len() implies #[trigger] self.node_wf(i) by {
            assert(old(self).node_wf(i));
        }
        id
    }

    /// Append a node that produces a fresh value; record the producer.
    pub fn add_node_with_output(&mut self, op: Operation) -> (r: ValueId)
        requires
            old(self).wf(),
            operands_below(op, old(self).next_value as nat),
        ensures
            final(self).wf(),
            r.0 == old(self).next_value,
            final(self).next_value == old(self).next_value + 1,
            final(self).next_node == old(self).next_node + 1,
            final(self).nodes@ == old(self).nodes@.push(
                Node { id: NodeId(old(self).next_node), op, output: Some(r) },
            ),
            final(self).value_map@ == old(self).value_map@.push(Some(NodeId(old(self).next_node))),
            final(self).pipeline_config == old(self).pipeline_config,
            final(self).pipeline_stages == old(self).pipeline_stages,
    {
        let node_idx = self.nodes.len();
        let output_value = ValueId(self.value_map.len());
        let node = Node { id: NodeId(node_idx), op: op, output: Some(output_value) };
        self.value_map.push(Some(NodeId(node_idx)));
        self.next_value = self.value_map.len();
        self.nodes.push(node);
        self.next_node = self.nodes.len();
        assert forall|i: int| 0 <= i < self.nodes@.len() implies #[trigger] self.node_wf(i) by {
            if i < self.nodes@.len() - 1 {
                assert(old(self).node_wf(i));
            }
        }
        output_value
    }

    /// Append a sink node (one that produces no value).
    pub fn add_node(&mut self, op: Operation) -> (r: NodeId)
        requires
            old(self).wf(),
            operands_below(op, old(self).next_value as nat),
        ensures
            final(self).wf(),
            r.0 == old(self).next_node,
            final(self).next_node == old(self).next_node + 1,
            final(self).next_value == old(self).next_value,
            final(self).nodes@ == old(self).nodes@.push(
                Node { id: NodeId(old(self).next_node), op, output: None },
            ),
            final(self).value_map == old(self).value_map,
            final(self).pipeline_config == old(self).pipeline_config,
            final(self).pipeline_stages == old(self).pipeline_stages,
    {
        let node_idx = self.nodes.len();
        let node = Node { id: NodeId(node_idx), op: op, output: None };
        self.nodes.push(node);
        self.next_node = self.nodes.len();
        assert forall|i: int| 0 <= i < self.nodes@.len() implies #[trigger] self.node_wf(i) by {
            if i < self.nodes@.len() - 1 {
                assert(old(self).node_wf(i));
            }
        }
        NodeId(node_idx)
    }

    /// Turn pipelining on with the given initiation interval, target depth
    /// and unroll factor.
    pub fn enable_pipeline(&mut self, ii: usize, depth: usize, unroll: usize)
        ensures
            final(self).pipeline_config == (PipelineConfig {
                enable: true,
                initiation_interval: ii,
                pipeline_depth: depth,
                unroll_factor: unroll,
            }),
            final(self).nodes == old(self).nodes,
            final(self).next_value == old(self).next_value,
            final(self).next_node == old(self).next_node,
            final(self).value_map == old(self).value_map,
            final(self).pipeline_stages == old(self).pipeline_stages,
            old(self).wf() ==> final(self).wf(),
    {
        self.pipeline_config = PipelineConfig {
            enable: true,
            initiation_interval: ii,
            pipeline_depth: depth,
            unroll_factor: unroll,
        };
        assert(old(self).wf() ==> final(self).wf()) by {
            if old(self).wf() {
                assert forall|i: int| 0 <= i < self.nodes@.len() implies #[trigger] self.node_wf(
                    i,
                ) by {
                    assert(old(self).node_wf(i));
                }
            }
        }
    }

    /// Append a pipeline-register node that delays `value` by one cycle and
    /// return the fresh value it produces.
    pub fn insert_pipeline_register(&mut self, value: ValueId) -> (r: ValueId)
        requires
            old(self).wf(),
            value.0 < old(self).next_value,
        ensures
            final(self).wf(),
            r.0 == old(self).next_value,
            final(self).next_value == old(self).next_value + 1,
            final(self).next_node == old(self).next_node + 1,
            final(self).nodes@ == old(self).nodes@.push(
                Node {
                    id: NodeId(old(self).next_node),
                    op: Operation::PipelineRegister(value),
                    output: Some(r),
                },
            ),
            final(self).value_map@ == old(self).value_map@.push(Some(NodeId(old(self).next_node))),
            final(self).pipeline_config == old(self).pipeline_config,
            final(self).pipeline_stages == old(self).pipeline_stages,
    {
        self.add_node_with_output(Operation::PipelineRegister(value))
    }

    /// Latency of an operation, as the table `op_latency` states it.
    pub fn get_operation_latency(&self, op: &Operation) -> (r: usize)
        ensures
            r == op_latency(*op),
    {
        match op {
            Operation::Add(_, _) | Operation::Sub(_, _) => 1,
            Operation::Mul(_, _) => 3,
            Operation::Div(_, _) => 18,
            Operation::And(_, _) | Operation::Or(_, _) | Operation::Not(_) => 1,
            Operation::CmpLt(_, _) | Operation::CmpEq(_, _) => 1,
            Operation::Load(_) => 2,
            Operation::Store(_, _) => 1,
            Operation::Const(_) => 0,
            Operation::Mux(_, _, _) => 1,
            Operation::PipelineRegister(_) => 1,
            Operation::PipelineBarrier => 0,
            Operation::Nop => 0,
        }
    }
}

} // verus!
