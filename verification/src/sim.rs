//! A software evaluator for graphs: walks the nodes in insertion order and
//! computes each produced value with two's-complement semantics, so emitted
//! hardware can be cross-checked against it.

use vstd::prelude::*;
use crate::graph::{Graph, Operation, ValueId};

verus! {

/// The value bound to `v`, or zero when `v` is out of range (an unset input
/// reads as zero, as does an unknown operand).
pub open spec fn val_of(values: Seq<i64>, v: int) -> i64 {
    if 0 <= v < values.len() {
        values[v]
    } else {
        0
    }
}

/// Write `x` at a node's output slot, if it has one in range.
pub open spec fn write_out(values: Seq<i64>, out: Option<ValueId>, x: i64) -> Seq<i64> {
    match out {
        Some(v) => if v.0 < values.len() {
            values.update(v.0 as int, x)
        } else {
            values
        },
        None => values,
    }
}

/// The value store after evaluating the first `upto` nodes, starting from
/// `init`. Arithmetic wraps (two's-complement); operations outside the
/// evaluated arithmetic subset leave the store unchanged.
pub open spec fn sim_values(g: Graph, init: Seq<i64>, upto: int) -> Seq<i64>
    decreases upto,
{
    if upto <= 0 {
        init
    } else {
        let prev = sim_values(g, init, upto - 1);
        let node = g.nodes@[upto - 1];
        match node.op {
            Operation::Const(c) => write_out(prev, node.output, c),
            Operation::Add(a, b) => write_out(
                prev,
                node.output,
                val_of(prev, a.0 as int).wrapping_add(val_of(prev, b.0 as int)),
            ),
            Operation::Sub(a, b) => write_out(
                prev,
                node.output,
                val_of(prev, a.0 as int).wrapping_sub(val_of(prev, b.0 as int)),
            ),
            Operation::Mul(a, b) => write_out(
                prev,
                node.output,
                val_of(prev, a.0 as int).wrapping_mul(val_of(prev, b.0 as int)),
            ),
            _ => prev,
        }
    }
}

/// The outputs produced by evaluating the first `upto` nodes: one entry per
/// `Store`, in node order, carrying the stored value at that point.
pub open spec fn sim_outputs(g: Graph, init: Seq<i64>, upto: int) -> Seq<(Seq<char>, i64)>
    decreases upto,
{
    if upto <= 0 {
        Seq::empty()
    } else {
        sim_outputs(g, init, upto - 1) + (match g.nodes@[upto - 1].op {
            Operation::Store(name, v) => seq![
                (name@, val_of(sim_values(g, init, upto - 1), v.0 as int)),
            ],
            _ => Seq::empty(),
        })
    }
}

/// Whether `v` is the output value of a `Load` node named `name` among the
/// first `upto` nodes.
pub open spec fn is_load_output(g: Graph, name: Seq<char>, v: int, upto: int) -> bool {
    exists|i: int|
        0 <= i < upto && match #[trigger] g.nodes@[i].op {
            Operation::Load(nm) => nm@ == name && g.nodes@[i].output == Some(
                ValueId(v as usize),
            ) && 0 <= v <= usize::MAX,
            _ => false,
        }
}

/// A witness index for `is_load_output`.
proof fn lemma_load_output_witness(g: Graph, name: Seq<char>, v: int, upto: int) -> (j: int)
    requires
        is_load_output(g, name, v, upto),
    ensures
        0 <= j < upto && match g.nodes@[j].op {
            Operation::Load(nm) => nm@ == name && g.nodes@[j].output == Some(ValueId(v as usize))
                && 0 <= v <= usize::MAX,
            _ => false,
        },
{
    choose|i: int|
        0 <= i < upto && match #[trigger] g.nodes@[i].op {
            Operation::Load(nm) => nm@ == name && g.nodes@[i].output == Some(ValueId(v as usize))
                && 0 <= v <= usize::MAX,
            _ => false,
        }
}

/// `values` padded with zeros up to length `n` (unchanged when already
/// that long).
pub open spec fn grown(values: Seq<i64>, n: int) -> Seq<i64> {
    if values.len() >= n {
        values
    } else {
        values + Seq::new((n - values.len()) as nat, |i: int| 0i64)
    }
}

/// The evaluator: a dense store of values indexed by value identifier.
pub struct Simulator {
    pub values: Vec<i64>,
}

/// The views of the output pairs.
pub open spec fn output_views(v: Seq<(String, i64)>) -> Seq<(Seq<char>, i64)> {
    v.map_values(|p: (String, i64)| (p.0@, p.1))
}

impl Simulator {
    /// An evaluator with no inputs set.
    pub fn new() -> (r: Self)
        ensures
            r.values@ =~= Seq::<i64>::empty(),
    {
        Simulator { values: Vec::new() }
    }

    /// Bind every input port named `name` to `value`.
    pub fn set_input(&mut self, name: &str, value: i64, graph: &Graph)
        requires
            graph.wf(),
        ensures
            final(self).values@.len() >= graph.next_value,
            forall|v: int|
                #[trigger] val_of(final(self).values@, v) == if is_load_output(
                    *graph,
                    name@,
                    v,
                    graph.nodes@.len() as int,
                ) {
                    value
                } else {
                    val_of(old(self).values@, v)
                },
    {
        let needed = graph.value_map.len();
        while self.values.len() < needed
            invariant
                forall|v: int| #[trigger]
                    val_of(self.values@, v) == val_of(old(self).values@, v),
            decreases needed - self.values@.len(),
        {
            let ghost pre = self.values@;
            self.values.push(0);
            proof {
                assert(forall|v: int| #[trigger]
                    val_of(self.values@, v) == val_of(pre, v));
            }
        }
        let target = String::from_str(name);
        let n = graph.nodes.len();
        for i in 0..n
            invariant
                graph.wf(),
                n == graph.nodes@.len(),
                target@ == name@,
                self.values@.len() >= graph.next_value,
                forall|v: int|
                    #[trigger] val_of(self.values@, v) == if is_load_output(
                        *graph,
                        name@,
                        v,
                        i as int,
                    ) {
                        value
                    } else {
                        val_of(old(self).values@, v)
                    },
        {
            let ghost pre = self.values@;
            let ghost mut set_idx: int = -1;
            match &graph.nodes[i].op {
                Operation::Load(input_name) => {
                    if input_name.eq(&target) {
                        match graph.nodes[i].output {
                            Some(out) => {
                                proof {
                                    assert(graph.node_wf(i as int));
                                    set_idx = out.0 as int;
                                }
                                self.values.set(out.0, value);
                                proof {
                                    assert(is_load_output(*graph, name@, out.0 as int, i + 1));
                                }
                            },
                            None => {},
                        }
                    }
                },
                _ => {},
            }
            proof {
                assert forall|v: int|
                    #[trigger] val_of(self.values@, v) == (if is_load_output(
                        *graph,
                        name@,
                        v,
                        i + 1,
                    ) {
                        value
                    } else {
                        val_of(old(self).values@, v)
                    }) by {
                    if v != set_idx {
                        assert(val_of(self.values@, v) == val_of(pre, v));
                    }
                    if is_load_output(*graph, name@, v, i + 1) && !is_load_output(
                        *graph,
                        name@,
                        v,
                        i as int,
                    ) {
                        let j = lemma_load_output_witness(*graph, name@, v, i + 1);
                        assert(j == i);
                        assert(v == set_idx);
                    }
                    if !is_load_output(*graph, name@, v, i + 1) && is_load_output(
                        *graph,
                        name@,
                        v,
                        i as int,
                    ) {
                        let j = lemma_load_output_witness(*graph, name@, v, i as int);
                        assert(is_load_output(*graph, name@, v, i + 1));
                    }
                    if v == set_idx && 0 <= set_idx {
                        assert(is_load_output(*graph, name@, v, i + 1));
                        assert(val_of(self.values@, v) == value);
                    }
                }
            }
        }
    }

    /// Evaluate the graph in node order and return the stored outputs, one
    /// entry per `Store` node in node order. The store is first grown with
    /// zeros to cover every minted value (an unset input reads as zero).
    pub fn simulate(&mut self, graph: &Graph) -> (r: Vec<(String, i64)>)
        requires
            graph.wf(),
        ensures
            output_views(r@) == sim_outputs(
                *graph,
                grown(old(self).values@, graph.next_value as int),
                graph.nodes@.len() as int,
            ),
            final(self).values@ == sim_values(
                *graph,
                grown(old(self).values@, graph.next_value as int),
                graph.nodes@.len() as int,
            ),
    {
        let needed = graph.value_map.len();
        while self.values.len() < needed
            invariant
                self.values@ == grown(old(self).values@, self.values@.len() as int),
                self.values@.len() >= old(self).values@.len(),
                self.values@.len() <= needed || self.values@.len() == old(self).values@.len(),
            decreases needed - self.values@.len(),
        {
            let ghost pre = self.values@;
            self.values.push(0);
            proof {
                assert(self.values@ =~= grown(old(self).values@, self.values@.len() as int));
            }
        }
        proof {
            assert(self.values@ =~= grown(old(self).values@, graph.next_value as int));
        }
        let ghost init = self.values@;
        let mut outputs: Vec<(String, i64)> = Vec::new();
        let n = graph.nodes.len();
        for i in 0..n
            invariant
                graph.wf(),
                n == graph.nodes@.len(),
                init == grown(old(self).values@, graph.next_value as int),
                self.values@ == sim_values(*graph, init, i as int),
                output_views(outputs@) == sim_outputs(*graph, init, i as int),
        {
            let node = &graph.nodes[i];
            match &node.op {
                Operation::Const(val) => {
                    self.store_output(node.output, *val);
                },
                Operation::Add(left, right) => {
                    let x = self.read_value(*left).wrapping_add(self.read_value(*right));
                    self.store_output(node.output, x);
                },
                Operation::Sub(left, right) => {
                    let x = self.read_value(*left).wrapping_sub(self.read_value(*right));
                    self.store_output(node.output, x);
                },
                Operation::Mul(left, right) => {
                    let x = self.read_value(*left).wrapping_mul(self.read_value(*right));
                    self.store_output(node.output, x);
                },
                Operation::Store(name, value_id) => {
                    let v = self.read_value(*value_id);
                    outputs.push((name.clone(), v));
                },
                _ => {},
            }
            proof {
                assert(self.values@ =~= sim_values(*graph, init, i + 1));
                assert(output_views(outputs@) =~= sim_outputs(*graph, init, i + 1));
            }
        }
        outputs
    }

    /// Read a value from the store (zero when unset or out of range).
    fn read_value(&self, v: ValueId) -> (r: i64)
        ensures
            r == val_of(self.values@, v.0 as int),
    {
        if v.0 < self.values.len() {
            self.values[v.0]
        } else {
            0
        }
    }

    /// Write a node's output slot, if it has one in range.
    fn store_output(&mut self, out: Option<ValueId>, x: i64)
        ensures
            final(self).values@ == write_out(old(self).values@, out, x),
    {
        match out {
            Some(v) => {
                if v.0 < self.values.len() {
                    self.values.set(v.0, x);
                }
            },
            None => {},
        }
    }
}

} // verus!
