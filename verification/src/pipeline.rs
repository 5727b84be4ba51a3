//! The pipeline scheduler: dependency analysis, ASAP and ALAP cycle bounds,
//! resource-constrained placement, pipeline-register insertion and stage
//! materialization.

use vstd::prelude::*;
use vstd::arithmetic::mul::{lemma_mul_inequality, lemma_mul_is_distributive_add_other_way};
use crate::graph::{Graph, Node, NodeId, Operation, PipelineStage, ValueId, op_latency, op_operands};
use crate::text::dec_str;

verus! {

/// Every operand edge of the graph spans at least the producer's latency:
/// a consumer starts no earlier than each of its producers finishes.
pub open spec fn schedule_respects_deps(g: Graph, s: Seq<usize>) -> bool {
    forall|j: int, k: int|
        0 <= j < g.nodes@.len() && 0 <= k < op_operands(g.nodes@[j].op).len() ==> {
            let v = #[trigger] op_operands(g.nodes@[j].op)[k];
            match g.producer_of(v) {
                Some(m) => s[j] >= s[m.0 as int] + op_latency(g.nodes@[m.0 as int].op),
                None => true,
            }
        }
}

/// At every cycle, each bounded resource class holds no more nodes than its
/// per-cycle budget.
pub open spec fn schedule_respects_budgets(
    g: Graph,
    s: Seq<usize>,
    rc: ResourceConstraints,
) -> bool {
    forall|cyc: int, c: ResourceClass|
        c != ResourceClass::Logic ==> #[trigger] class_count_at(
            g,
            s,
            g.nodes@.len() as int,
            cyc,
            c,
        ) <= rc.spec_budget(c)
}

/// The resource class an operation draws from. `Logic` is unbounded.
#[derive(Debug, Clone, Copy, PartialEq, Eq, Structural)]
pub enum ResourceClass {
    Adder,
    Multiplier,
    Divider,
    Memory,
    Logic,
}

/// Per-cycle budget for each bounded resource class.
#[derive(Debug, Clone, Copy, PartialEq, Eq, Structural)]
pub struct ResourceConstraints {
    pub adder: usize,
    pub multiplier: usize,
    pub divider: usize,
    pub memory: usize,
}

/// The resource class of an operation.
pub open spec fn op_class(op: Operation) -> ResourceClass {
    match op {
        Operation::Add(_, _) | Operation::Sub(_, _) => ResourceClass::Adder,
        Operation::Mul(_, _) => ResourceClass::Multiplier,
        Operation::Div(_, _) => ResourceClass::Divider,
        Operation::Load(_) | Operation::Store(_, _) => ResourceClass::Memory,
        _ => ResourceClass::Logic,
    }
}

impl ResourceConstraints {
    /// The per-cycle budget of a class; `Logic` is effectively unbounded.
    pub open spec fn spec_budget(self, c: ResourceClass) -> nat {
        match c {
            ResourceClass::Adder => self.adder as nat,
            ResourceClass::Multiplier => self.multiplier as nat,
            ResourceClass::Divider => self.divider as nat,
            ResourceClass::Memory => self.memory as nat,
            ResourceClass::Logic => usize::MAX as nat,
        }
    }

    /// Budget lookup.
    pub fn budget(&self, c: ResourceClass) -> (r: usize)
        ensures
            r as nat == self.spec_budget(c),
    {
        match c {
            ResourceClass::Adder => self.adder,
            ResourceClass::Multiplier => self.multiplier,
            ResourceClass::Divider => self.divider,
            ResourceClass::Memory => self.memory,
            ResourceClass::Logic => usize::MAX,
        }
    }
}

/// The producers of `ops` that are bound in the producer map, in operand
/// order.
pub open spec fn deps_from_operands(g: Graph, ops: Seq<ValueId>) -> Seq<NodeId>
    decreases ops.len(),
{
    if ops.len() == 0 {
        Seq::empty()
    } else {
        deps_from_operands(g, ops.drop_last()) + (match g.producer_of(ops.last()) {
            Some(m) => seq![m],
            None => Seq::empty(),
        })
    }
}

/// The nodes that node `i` depends on (the producers of its operands).
pub open spec fn deps_of_node(g: Graph, i: int) -> Seq<NodeId> {
    deps_from_operands(g, op_operands(g.nodes@[i].op))
}

/// The earliest cycle node `i` may start under a given cycle assignment:
/// the maximum of `base` and, over its operands' bound producers `m`
/// standing earlier in the list, `s[m] + latency(m)`.
pub open spec fn earliest_from_ops(
    g: Graph,
    s: Seq<usize>,
    ops: Seq<ValueId>,
    i: int,
    base: int,
) -> int
    decreases ops.len(),
{
    if ops.len() == 0 {
        base
    } else {
        let rest = earliest_from_ops(g, s, ops.drop_last(), i, base);
        let fin: int = match g.producer_of(ops.last()) {
            Some(m) => if m.0 < i {
                s[m.0 as int] + op_latency(g.nodes@[m.0 as int].op)
            } else {
                0
            },
            None => 0,
        };
        if fin > rest {
            fin
        } else {
            rest
        }
    }
}

/// The earliest feasible start of node `i`: its ASAP bound, pushed out past
/// its operands' finish cycles.
pub open spec fn earliest_start(g: Graph, s: Seq<usize>, asap: Seq<usize>, i: int) -> int {
    earliest_from_ops(g, s, op_operands(g.nodes@[i].op), i, asap[i] as int)
}

/// The earliest feasible start of node `i`, with the ASAP bound taken from
/// the graph itself rather than a precomputed table.
pub open spec fn earliest_start_of(g: Graph, s: Seq<usize>, i: int) -> int {
    earliest_from_ops(g, s, op_operands(g.nodes@[i].op), i, asap_spec(g, i) as int)
}

/// The first cycle at or after `c` whose count for class `cl` (among the
/// first `i` placements of `s`) is under `budget`, searched within `fuel`
/// steps. The placement always supplies enough fuel: a window one wider
/// than the number of already placed same-class nodes cannot be saturated.
pub open spec fn first_fit_from(
    g: Graph,
    s: Seq<usize>,
    i: int,
    cl: ResourceClass,
    budget: nat,
    c: int,
    fuel: nat,
) -> int
    decreases fuel,
{
    if fuel == 0 {
        c
    } else if class_count_at(g, s, i, c, cl) < budget {
        c
    } else {
        first_fit_from(g, s, i, cl, budget, c + 1, (fuel - 1) as nat)
    }
}

/// The cycle the placement assigns node `i`, as a function of the graph,
/// the budgets, the ASAP table and the assignment of the earlier nodes:
/// the earliest feasible start for the unbounded logic class, otherwise
/// the first cycle from there whose class count is under budget.
pub open spec fn first_fit_cycle(
    g: Graph,
    rc: ResourceConstraints,
    asap: Seq<usize>,
    s: Seq<usize>,
    i: int,
) -> int {
    let lower = earliest_start(g, s, asap, i);
    let cl = op_class(g.nodes@[i].op);
    if cl == ResourceClass::Logic {
        lower
    } else {
        first_fit_from(g, s, i, cl, rc.spec_budget(cl), lower, (class_total(g, i, cl) + 1) as nat)
    }
}

/// `first_fit_cycle` with the ASAP bound taken from the graph itself; it
/// reads `s` only below `i`, so a schedule satisfying it pointwise is
/// determined by the graph and the budgets alone.
pub open spec fn first_fit_of(g: Graph, rc: ResourceConstraints, s: Seq<usize>, i: int) -> int {
    let lower = earliest_start_of(g, s, i);
    let cl = op_class(g.nodes@[i].op);
    if cl == ResourceClass::Logic {
        lower
    } else {
        first_fit_from(g, s, i, cl, rc.spec_budget(cl), lower, (class_total(g, i, cl) + 1) as nat)
    }
}

/// The first-fit search for node `i` reads only assignments before `i`.
proof fn lemma_first_fit_prefix(
    g: Graph,
    s1: Seq<usize>,
    s2: Seq<usize>,
    i: int,
    cl: ResourceClass,
    budget: nat,
    c: int,
    fuel: nat,
)
    requires
        0 <= i <= s1.len(),
        i <= s2.len(),
        forall|x: int| 0 <= x < i ==> s1[x] == s2[x],
    ensures
        first_fit_from(g, s1, i, cl, budget, c, fuel) == first_fit_from(
            g,
            s2,
            i,
            cl,
            budget,
            c,
            fuel,
        ),
    decreases fuel,
{
    if fuel > 0 {
        lemma_class_count_prefix(g, s1, s2, i, c, cl);
        if !(class_count_at(g, s1, i, c, cl) < budget) {
            lemma_first_fit_prefix(g, s1, s2, i, cl, budget, c + 1, (fuel - 1) as nat);
        }
    }
}

/// The earliest start of node `i` reads only assignments before `i`.
proof fn lemma_earliest_prefix(
    g: Graph,
    s1: Seq<usize>,
    s2: Seq<usize>,
    ops: Seq<ValueId>,
    i: int,
    base: int,
)
    requires
        forall|x: int| 0 <= x < i ==> i <= s1.len() && i <= s2.len() && s1[x] == s2[x],
        i <= s1.len(),
        i <= s2.len(),
    ensures
        earliest_from_ops(g, s1, ops, i, base) == earliest_from_ops(g, s2, ops, i, base),
    decreases ops.len(),
{
    if ops.len() > 0 {
        lemma_earliest_prefix(g, s1, s2, ops.drop_last(), i, base);
    }
}

/// Earliest start over a dependency list: the maximum of each dependency's
/// ASAP start plus its latency.
pub open spec fn asap_from_deps(g: Graph, ds: Seq<NodeId>, i: int) -> nat
    decreases i, ds.len(),
    when i >= 0
{
    if ds.len() == 0 {
        0
    } else {
        let rest = asap_from_deps(g, ds.drop_last(), i);
        let m = ds.last();
        let dep_finish: nat = if m.0 < i {
            asap_spec(g, m.0 as int) + op_latency(g.nodes@[m.0 as int].op)
        } else {
            0
        };
        if dep_finish > rest {
            dep_finish
        } else {
            rest
        }
    }
}

/// The ASAP (as-soon-as-possible) start cycle of node `i`: zero for a
/// source, otherwise the maximum over its dependencies of their ASAP start
/// plus their latency.
pub open spec fn asap_spec(g: Graph, i: int) -> nat
    decreases i, deps_of_node(g, i).len() + 1,
    when i >= 0
{
    asap_from_deps(g, deps_of_node(g, i), i)
}

/// Maximum entry of a sequence (zero when empty).
pub open spec fn vmax(s: Seq<usize>) -> nat
    decreases s.len(),
{
    if s.len() == 0 {
        0
    } else {
        let r = vmax(s.drop_last());
        if s.last() as nat >= r {
            s.last() as nat
        } else {
            r
        }
    }
}

/// The ALAP (as-late-as-possible) cycle of node `i`: its ASAP cycle pushed
/// out to the horizon, the horizon being the critical-path length clamped to
/// the configured pipeline depth.
pub open spec fn alap_cycle(asap: Seq<usize>, depth: nat, i: int) -> nat {
    let target: nat = if vmax(asap) <= depth {
        vmax(asap)
    } else {
        depth
    };
    if asap[i] as nat >= target {
        asap[i] as nat
    } else {
        target
    }
}

/// The list scheduler: a stage horizon and the per-cycle resource budgets.
pub struct PipelineScheduler {
    pub max_stages: usize,
    pub resource_constraints: ResourceConstraints,
}

impl PipelineScheduler {
    /// A scheduler with the default target budgets.
    pub fn new() -> (r: Self)
        ensures
            r.max_stages == 16,
            r.resource_constraints == (ResourceConstraints {
                adder: 100,
                multiplier: 12,
                divider: 4,
                memory: 8,
            }),
    {
        PipelineScheduler {
            max_stages: 16,
            resource_constraints: ResourceConstraints {
                adder: 100,
                multiplier: 12,
                divider: 4,
                memory: 8,
            },
        }
    }

    /// The resource class of an operation, as `op_class` states it.
    pub fn get_resource_type(&self, op: &Operation) -> (r: ResourceClass)
        ensures
            r == op_class(*op),
    {
        match op {
            Operation::Add(_, _) | Operation::Sub(_, _) => ResourceClass::Adder,
            Operation::Mul(_, _) => ResourceClass::Multiplier,
            Operation::Div(_, _) => ResourceClass::Divider,
            Operation::Load(_) | Operation::Store(_, _) => ResourceClass::Memory,
            _ => ResourceClass::Logic,
        }
    }

    /// For each node, the list of nodes it depends on, extracted from its
    /// operand references through the producer map.
    pub fn build_dependency_graph(&self, graph: &Graph) -> (r: Vec<Vec<NodeId>>)
        ensures
            r@.len() == graph.nodes@.len(),
            forall|i: int| 0 <= i < r@.len() ==> #[trigger] r@[i]@ == deps_of_node(*graph, i),
    {
        let n = graph.nodes.len();
        let mut result: Vec<Vec<NodeId>> = Vec::new();
        for i in 0..n
            invariant
                n == graph.nodes@.len(),
                result@.len() == i,
                forall|j: int| 0 <= j < i ==> #[trigger] result@[j]@ == deps_of_node(*graph, j),
        {
            let ops = operands_vec(&graph.nodes[i].op);
            let mut deps: Vec<NodeId> = Vec::new();
            let nops = ops.len();
            for k in 0..nops
                invariant
                    nops == ops@.len(),
                    i < graph.nodes@.len(),
                    ops@ == op_operands(graph.nodes@[i as int].op),
                    deps@ == deps_from_operands(*graph, ops@.take(k as int)),
            {
                proof {
                    assert(ops@.take(k + 1).drop_last() =~= ops@.take(k as int));
                    assert(ops@.take(k + 1).last() == ops@[k as int]);
                }
                match lookup_producer(graph, ops[k]) {
                    Some(m) => {
                        deps.push(m);
                        proof {
                            assert(deps@ =~= deps_from_operands(*graph, ops@.take(k + 1)));
                        }
                    },
                    None => {
                        proof {
                            assert(deps@ =~= deps_from_operands(*graph, ops@.take(k + 1)));
                        }
                    },
                }
            }
            proof {
                assert(ops@.take(nops as int) =~= ops@);
            }
            result.push(deps);
        }
        result
    }

    /// The ASAP schedule: a topological forward pass assigning each node the
    /// maximum of its dependencies' finish cycles. Always succeeds on a
    /// well-formed graph (which is acyclic by construction).
    pub fn calculate_asap_schedule(
        &self,
        graph: &Graph,
        dependencies: &Vec<Vec<NodeId>>,
    ) -> (r: Result<Vec<usize>, String>)
        requires
            graph.wf(),
            dependencies@.len() == graph.nodes@.len(),
            forall|i: int|
                0 <= i < dependencies@.len() ==> #[trigger] dependencies@[i]@ == deps_of_node(
                    *graph,
                    i,
                ),
            18 * graph.nodes@.len() <= usize::MAX,
        ensures
            r is Ok,
            r matches Ok(s) ==> {
                &&& s@.len() == graph.nodes@.len()
                &&& forall|i: int|
                    0 <= i < s@.len() ==> #[trigger] s@[i] as nat == asap_spec(*graph, i)
                &&& forall|i: int| 0 <= i < s@.len() ==> #[trigger] s@[i] <= 18 * i
            },
    {
        let n = graph.nodes.len();
        let mut schedule: Vec<usize> = Vec::new();
        for i in 0..n
            invariant
                graph.wf(),
                n == graph.nodes@.len(),
                dependencies@.len() == n,
                forall|j: int|
                    0 <= j < n ==> #[trigger] dependencies@[j]@ == deps_of_node(*graph, j),
                18 * n <= usize::MAX,
                schedule@.len() == i,
                forall|j: int|
                    0 <= j < i ==> #[trigger] schedule@[j] as nat == asap_spec(*graph, j),
                forall|j: int| 0 <= j < i ==> #[trigger] schedule@[j] <= 18 * j,
        {
            let deps = &dependencies[i];
            let nd = deps.len();
            let mut cycle: usize = 0;
            for k in 0..nd
                invariant
                    graph.wf(),
                    n == graph.nodes@.len(),
                    i < n,
                    18 * n <= usize::MAX,
                    nd == deps@.len(),
                    deps@ == deps_of_node(*graph, i as int),
                    schedule@.len() == i,
                    forall|j: int|
                        0 <= j < i ==> #[trigger] schedule@[j] as nat == asap_spec(*graph, j),
                    forall|j: int| 0 <= j < i ==> #[trigger] schedule@[j] <= 18 * j,
                    cycle as nat == asap_from_deps(*graph, deps@.take(k as int), i as int),
                    cycle <= 18 * i,
            {
                proof {
                    assert(deps@.take(k + 1).drop_last() =~= deps@.take(k as int));
                    assert(deps@.take(k + 1).last() == deps@[k as int]);
                    assert(op_latency(graph.nodes@[deps@[k as int].0 as int].op) <= 18);
                }
                let d = deps[k];
                if d.0 < i {
                    let lat = graph.get_operation_latency(&graph.nodes[d.0].op);
                    let cand = schedule[d.0] + lat;
                    if cand > cycle {
                        cycle = cand;
                    }
                }
            }
            proof {
                assert(deps@.take(nd as int) =~= deps@);
            }
            schedule.push(cycle);
        }
        Ok(schedule)
    }

    /// The ALAP schedule: each node's ASAP cycle plus its slack against the
    /// horizon (the critical-path length clamped to the configured depth).
    pub fn calculate_alap_schedule(
        &self,
        graph: &Graph,
        _dependencies: &Vec<Vec<NodeId>>,
        asap: &Vec<usize>,
    ) -> (r: Result<Vec<usize>, String>)
        requires
            asap@.len() == graph.nodes@.len(),
        ensures
            r is Ok,
            r matches Ok(s) ==> {
                &&& s@.len() == graph.nodes@.len()
                &&& forall|i: int|
                    0 <= i < s@.len() ==> #[trigger] s@[i] as nat == alap_cycle(
                        asap@,
                        graph.pipeline_config.pipeline_depth as nat,
                        i,
                    )
            },
    {
        let n = asap.len();
        let mut max_cycle: usize = 0;
        for j in 0..n
            invariant
                n == asap@.len(),
                max_cycle as nat == vmax(asap@.take(j as int)),
        {
            proof {
                assert(asap@.take(j + 1).drop_last() =~= asap@.take(j as int));
                assert(asap@.take(j + 1).last() == asap@[j as int]);
            }
            if asap[j] > max_cycle {
                max_cycle = asap[j];
            }
        }
        proof {
            assert(asap@.take(n as int) =~= asap@);
        }
        let depth = graph.pipeline_config.pipeline_depth;
        let target: usize = if max_cycle <= depth {
            max_cycle
        } else {
            depth
        };
        let mut schedule: Vec<usize> = Vec::new();
        for i in 0..n
            invariant
                n == asap@.len(),
                target as nat == (if vmax(asap@) <= graph.pipeline_config.pipeline_depth as nat {
                    vmax(asap@)
                } else {
                    graph.pipeline_config.pipeline_depth as nat
                }),
                schedule@.len() == i,
                forall|j: int|
                    0 <= j < i ==> #[trigger] schedule@[j] as nat == alap_cycle(
                        asap@,
                        graph.pipeline_config.pipeline_depth as nat,
                        j,
                    ),
        {
            let c = if asap[i] >= target {
                asap[i]
            } else {
                target
            };
            schedule.push(c);
        }
        Ok(schedule)
    }

    /// Resource-constrained placement. Nodes are walked in insertion order,
    /// which is topological, so precedence is enforced directly: each node
    /// is placed at the first cycle, at or after its operands' finish cycles
    /// and its own ASAP cycle, where its resource class still has budget.
    /// A bounded class in use with budget zero is reported infeasible;
    /// otherwise the search always succeeds, since a window one wider than
    /// the number of already placed nodes cannot be saturated.
    #[verifier::rlimit(100)]
    pub fn resource_constrained_schedule(
        &self,
        graph: &Graph,
        asap: &Vec<usize>,
        alap: &Vec<usize>,
    ) -> (r: Result<Vec<usize>, String>)
        requires
            graph.wf(),
            asap@.len() == graph.nodes@.len(),
            alap@.len() == graph.nodes@.len(),
            vmax(asap@) + (graph.nodes@.len() + 1) * (19 + graph.nodes@.len()) <= usize::MAX,
        ensures
            r is Err <==> exists|i: int|
                0 <= i < graph.nodes@.len() && op_class(#[trigger] graph.nodes@[i].op)
                    != ResourceClass::Logic && self.resource_constraints.spec_budget(
                    op_class(graph.nodes@[i].op),
                ) == 0,
            r matches Ok(s) ==> {
                &&& s@.len() == graph.nodes@.len()
                &&& forall|i: int| 0 <= i < s@.len() ==> #[trigger] s@[i] >= asap@[i]
                &&& schedule_respects_deps(*graph, s@)
                &&& schedule_respects_budgets(*graph, s@, self.resource_constraints)
                &&& forall|i: int|
                    0 <= i < s@.len() ==> #[trigger] s@[i] as int == first_fit_cycle(
                        *graph,
                        self.resource_constraints,
                        asap@,
                        s@,
                        i,
                    )
                &&& forall|i: int|
                    0 <= i < s@.len() ==> #[trigger] s@[i] as int >= earliest_start(
                        *graph,
                        s@,
                        asap@,
                        i,
                    )
                &&& forall|i: int|
                    0 <= i < s@.len() ==> #[trigger] s@[i] as int <= earliest_start(
                        *graph,
                        s@,
                        asap@,
                        i,
                    ) + class_total(*graph, i, op_class(graph.nodes@[i].op))
                &&& forall|i: int|
                    0 <= i < s@.len() ==> #[trigger] s@[i] as int <= vmax(asap@) + (i + 1) * (19
                        + graph.nodes@.len())
            },
    {
        let n = graph.nodes.len();
        for i in 0..n
            invariant
                n == graph.nodes@.len(),
                forall|j: int|
                    0 <= j < i ==> (op_class(#[trigger] graph.nodes@[j].op) != ResourceClass::Logic
                        ==> self.resource_constraints.spec_budget(op_class(graph.nodes@[j].op))
                        >= 1),
        {
            let cl = self.get_resource_type(&graph.nodes[i].op);
            if cl != ResourceClass::Logic && self.resource_constraints.budget(cl) == 0 {
                let mut msg = String::from_str(
                    "ResourceInfeasible: zero budget for the resource class of node ",
                );
                msg.append(dec_str(i).as_str());
                return Err(msg);
            }
        }
        let ghost amax = vmax(asap@) as int;
        let ghost span = 19 + n as int;
        let mut usage = UsageTable::new();
        let mut schedule: Vec<usize> = Vec::new();
        for i in 0..n
            invariant
                graph.wf(),
                n == graph.nodes@.len(),
                asap@.len() == n,
                amax == vmax(asap@),
                span == 19 + n,
                amax + (n + 1) * span <= usize::MAX,
                forall|j: int|
                    0 <= j < n ==> (op_class(#[trigger] graph.nodes@[j].op) != ResourceClass::Logic
                        ==> self.resource_constraints.spec_budget(op_class(graph.nodes@[j].op))
                        >= 1),
                schedule@.len() == i,
                forall|j: int| 0 <= j < i ==> #[trigger] schedule@[j] >= asap@[j],
                forall|j: int|
                    0 <= j < i ==> #[trigger] schedule@[j] as int <= amax + (j + 1) * span,
                forall|j: int, k: int|
                    0 <= j < i && 0 <= k < op_operands(graph.nodes@[j].op).len() ==> {
                        let v = #[trigger] op_operands(graph.nodes@[j].op)[k];
                        match graph.producer_of(v) {
                            Some(m) => schedule@[j] >= schedule@[m.0 as int] + op_latency(
                                graph.nodes@[m.0 as int].op,
                            ),
                            None => true,
                        }
                    },
                forall|j: int|
                    0 <= j < i ==> #[trigger] schedule@[j] as int == first_fit_cycle(
                        *graph,
                        self.resource_constraints,
                        asap@,
                        schedule@,
                        j,
                    ),
                forall|j: int|
                    0 <= j < i ==> #[trigger] schedule@[j] as int >= earliest_start(
                        *graph,
                        schedule@,
                        asap@,
                        j,
                    ),
                forall|j: int|
                    0 <= j < i ==> #[trigger] schedule@[j] as int <= earliest_start(
                        *graph,
                        schedule@,
                        asap@,
                        j,
                    ) + class_total(*graph, j, op_class(graph.nodes@[j].op)),
                forall|cyc: int, c: ResourceClass|
                    c != ResourceClass::Logic ==> #[trigger] cycle_usage(usage.tab(c), cyc)
                        == class_count_at(*graph, schedule@, i as int, cyc, c),
                forall|cyc: int, c: ResourceClass|
                    c != ResourceClass::Logic ==> #[trigger] cycle_usage(usage.tab(c), cyc)
                        <= self.resource_constraints.spec_budget(c),
                forall|c: ResourceClass|
                    c != ResourceClass::Logic ==> #[trigger] seq_sum(usage.tab(c)) == class_total(
                        *graph,
                        i as int,
                        c,
                    ),
        {
            let ops = operands_vec(&graph.nodes[i].op);
            let mut lower: usize = asap[i];
            proof {
                lemma_vmax_ge(asap@, i as int);
                lemma_mul_inequality(0, i as int, span);
            }
            let nops = ops.len();
            for k in 0..nops
                invariant
                    graph.wf(),
                    n == graph.nodes@.len(),
                    i < n,
                    amax == vmax(asap@),
                    span == 19 + n,
                    amax + (n + 1) * span <= usize::MAX,
                    schedule@.len() == i,
                    forall|j: int|
                        0 <= j < i ==> #[trigger] schedule@[j] as int <= amax + (j + 1) * span,
                    nops == ops@.len(),
                    ops@ == op_operands(graph.nodes@[i as int].op),
                    lower as int <= amax + i as int * span + 18,
                    lower >= asap@[i as int],
                    lower as int == earliest_from_ops(
                        *graph,
                        schedule@,
                        ops@.take(k as int),
                        i as int,
                        asap@[i as int] as int,
                    ),
                    forall|kk: int|
                        0 <= kk < k ==> {
                            let v = #[trigger] ops@[kk];
                            match graph.producer_of(v) {
                                Some(m) => lower >= schedule@[m.0 as int] + op_latency(
                                    graph.nodes@[m.0 as int].op,
                                ),
                                None => true,
                            }
                        },
            {
                proof {
                    assert(graph.node_wf(i as int));
                    assert(ops@.take(k + 1).drop_last() =~= ops@.take(k as int));
                    assert(ops@.take(k + 1).last() == ops@[k as int]);
                }
                match lookup_producer(graph, ops[k]) {
                    Some(m) => {
                        proof {
                            let v = ops@[k as int];
                            assert(v == op_operands(graph.nodes@[i as int].op)[k as int]);
                            assert(m.0 < i);
                            assert(op_latency(graph.nodes@[m.0 as int].op) <= 18);
                            lemma_span_bounds(i as int, n as int);
                            lemma_mul_inequality(m.0 as int + 1, i as int, span);
                        }
                        let lat = graph.get_operation_latency(&graph.nodes[m.0].op);
                        let cand = schedule[m.0] + lat;
                        if cand > lower {
                            lower = cand;
                        }
                    },
                    None => {},
                }
            }
            proof {
                assert(ops@.take(nops as int) =~= ops@);
            }
            let cl = self.get_resource_type(&graph.nodes[i].op);
            let budget = self.resource_constraints.budget(cl);
            let ghost ct = class_total(*graph, i as int, cl);
            let mut placed: usize = lower;
            proof {
                lemma_span_bounds(i as int, n as int);
                lemma_mul_inequality(i as int + 1, n as int + 1, span);
                assert(lower as int + i as int + 1 <= amax + (i + 1) * span);
                lemma_class_total_bound(*graph, i as int, cl);
            }
            if cl != ResourceClass::Logic {
                proof {
                    lemma_exists_free_cycle(usage.tab(cl), lower as int, ct, budget as int);
                }
                let mut searching = true;
                while searching
                    invariant
                        searching ==> exists|cc: int|
                            placed as int <= cc <= lower as int + ct && cycle_usage(
                                usage.tab(cl),
                                cc,
                            ) < budget,
                        placed >= lower,
                        placed as int <= lower as int + ct,
                        0 <= ct <= i,
                        ct == class_total(*graph, i as int, cl),
                        lower as int + i as int + 1 <= usize::MAX,
                        first_fit_from(
                            *graph,
                            schedule@,
                            i as int,
                            cl,
                            budget as nat,
                            lower as int,
                            (ct + 1) as nat,
                        ) == first_fit_from(
                            *graph,
                            schedule@,
                            i as int,
                            cl,
                            budget as nat,
                            placed as int,
                            (ct + 1 - (placed - lower)) as nat,
                        ),
                        forall|cyc: int|
                            #[trigger] cycle_usage(usage.tab(cl), cyc) == class_count_at(
                                *graph,
                                schedule@,
                                i as int,
                                cyc,
                                cl,
                            ),
                        !searching ==> cycle_usage(usage.tab(cl), placed as int) < budget,
                        !searching ==> placed as int == first_fit_from(
                            *graph,
                            schedule@,
                            i as int,
                            cl,
                            budget as nat,
                            lower as int,
                            (ct + 1) as nat,
                        ),
                    decreases (if searching {
                        1int
                    } else {
                        0int
                    }) + lower as int + ct - placed as int,
                {
                    let u = usage.count_at(cl, placed);
                    if u < budget {
                        searching = false;
                        proof {
                            assert((ct + 1 - (placed - lower)) as nat >= 1);
                            assert(cycle_usage(usage.tab(cl), placed as int) == class_count_at(
                                *graph,
                                schedule@,
                                i as int,
                                placed as int,
                                cl,
                            ));
                            assert(first_fit_from(
                                *graph,
                                schedule@,
                                i as int,
                                cl,
                                budget as nat,
                                placed as int,
                                (ct + 1 - (placed - lower)) as nat,
                            ) == placed as int);
                        }
                    } else {
                        proof {
                            let cc = choose|cc: int|
                                placed as int <= cc <= lower as int + ct && cycle_usage(
                                    usage.tab(cl),
                                    cc,
                                ) < budget;
                            assert(cc >= placed as int + 1);
                            assert((ct + 1 - (placed - lower)) as nat >= 1);
                            assert(cycle_usage(usage.tab(cl), placed as int) == class_count_at(
                                *graph,
                                schedule@,
                                i as int,
                                placed as int,
                                cl,
                            ));
                            assert(first_fit_from(
                                *graph,
                                schedule@,
                                i as int,
                                cl,
                                budget as nat,
                                placed as int,
                                (ct + 1 - (placed - lower)) as nat,
                            ) == first_fit_from(
                                *graph,
                                schedule@,
                                i as int,
                                cl,
                                budget as nat,
                                placed as int + 1,
                                (ct + 1 - (placed + 1 - lower)) as nat,
                            ));
                        }
                        placed = placed + 1;
                    }
                }
            }
            let ghost pre_sched = schedule@;
            if cl != ResourceClass::Logic {
                usage.reserve(cl, placed);
            }
            schedule.push(placed);
            proof {
                let s2 = schedule@;
                assert(s2 == pre_sched.push(placed));
                assert forall|cyc: int, c: ResourceClass| c != ResourceClass::Logic implies
                    #[trigger] cycle_usage(usage.tab(c), cyc) == class_count_at(
                    *graph,
                    s2,
                    i as int + 1,
                    cyc,
                    c,
                ) by {
                    lemma_class_count_prefix(*graph, s2, pre_sched, i as int, cyc, c);
                }
                assert forall|c: ResourceClass| c != ResourceClass::Logic implies #[trigger]
                    seq_sum(usage.tab(c)) == class_total(*graph, i as int + 1, c) by {}
                lemma_span_bounds(i as int, n as int);
                assert(s2[i as int] as int <= amax + (i as int + 1) * span);
                assert forall|k: int|
                    0 <= k < op_operands(graph.nodes@[i as int].op).len() implies {
                    let v = #[trigger] op_operands(graph.nodes@[i as int].op)[k];
                    match graph.producer_of(v) {
                        Some(m) => s2[i as int] >= s2[m.0 as int] + op_latency(
                            graph.nodes@[m.0 as int].op,
                        ),
                        None => true,
                    }
                } by {
                    assert(ops@[k] == op_operands(graph.nodes@[i as int].op)[k]);
                    assert(graph.node_wf(i as int));
                }
                assert forall|j: int, k: int|
                    0 <= j < i && 0 <= k < op_operands(graph.nodes@[j].op).len() implies {
                    let v = #[trigger] op_operands(graph.nodes@[j].op)[k];
                    match graph.producer_of(v) {
                        Some(m) => s2[j] >= s2[m.0 as int] + op_latency(
                            graph.nodes@[m.0 as int].op,
                        ),
                        None => true,
                    }
                } by {
                    assert(graph.node_wf(j));
                    assert(forall|x: int| 0 <= x < i ==> s2[x] == pre_sched[x]);
                }
                assert forall|j: int|
                    0 <= j < i + 1 implies #[trigger] s2[j] as int >= earliest_start(
                    *graph,
                    s2,
                    asap@,
                    j,
                ) && s2[j] as int <= earliest_start(*graph, s2, asap@, j) + class_total(
                    *graph,
                    j,
                    op_class(graph.nodes@[j].op),
                ) by {
                    if j < i {
                        lemma_earliest_prefix(
                            *graph,
                            s2,
                            pre_sched,
                            op_operands(graph.nodes@[j].op),
                            j,
                            asap@[j] as int,
                        );
                    } else {
                        lemma_earliest_prefix(
                            *graph,
                            s2,
                            pre_sched,
                            op_operands(graph.nodes@[i as int].op),
                            i as int,
                            asap@[i as int] as int,
                        );
                    }
                }
                assert forall|j: int|
                    0 <= j < i + 1 implies #[trigger] s2[j] as int == first_fit_cycle(
                    *graph,
                    self.resource_constraints,
                    asap@,
                    s2,
                    j,
                ) by {
                    lemma_earliest_prefix(
                        *graph,
                        s2,
                        pre_sched,
                        op_operands(graph.nodes@[j].op),
                        j,
                        asap@[j] as int,
                    );
                    lemma_first_fit_prefix(
                        *graph,
                        s2,
                        pre_sched,
                        j,
                        op_class(graph.nodes@[j].op),
                        self.resource_constraints.spec_budget(op_class(graph.nodes@[j].op)),
                        earliest_start(*graph, s2, asap@, j),
                        (class_total(*graph, j, op_class(graph.nodes@[j].op)) + 1) as nat,
                    );
                }
            }
        }
        proof {
            assert forall|cyc: int, c: ResourceClass| c != ResourceClass::Logic implies
                #[trigger] class_count_at(*graph, schedule@, n as int, cyc, c)
                <= self.resource_constraints.spec_budget(c) by {
                assert(cycle_usage(usage.tab(c), cyc) == class_count_at(
                    *graph,
                    schedule@,
                    n as int,
                    cyc,
                    c,
                ));
            }
        }
        Ok(schedule)
    }

    /// Insert pipeline registers: for every operand edge spanning two or
    /// more cycles, append a chain of one register per intervening cycle on
    /// the value the edge carries. The original nodes are untouched
    /// (consumers keep their operand references); the chains stand after
    /// them, and the emitter resolves cross-stage references by name.
    pub fn insert_pipeline_registers(&self, graph: &mut Graph, schedule: &Vec<usize>) -> (r:
        Result<(), String>)
        requires
            old(graph).wf(),
            schedule@.len() == old(graph).nodes@.len(),
        ensures
            r is Ok,
            final(graph).wf(),
            final(graph).nodes@.len() >= old(graph).nodes@.len(),
            final(graph).nodes@.subrange(0, old(graph).nodes@.len() as int) == old(graph).nodes@,
            forall|x: int|
                old(graph).nodes@.len() <= x < final(graph).nodes@.len()
                    ==> (#[trigger] final(graph).nodes@[x].op) is PipelineRegister,
            registers_inserted(*old(graph), final(graph).nodes@, schedule@),
            final(graph).pipeline_config == old(graph).pipeline_config,
            final(graph).pipeline_stages == old(graph).pipeline_stages,
    {
        let n = graph.nodes.len();
        let mut to_insert: Vec<(ValueId, usize)> = Vec::new();
        for j in 0..n
            invariant
                *graph == *old(graph),
                graph.wf(),
                n == graph.nodes@.len(),
                schedule@.len() == n,
                forall|e: int|
                    0 <= e < to_insert@.len() ==> (#[trigger] to_insert@[e]).0.0
                        < graph.next_value,
                forall|j2: int, k2: int|
                    0 <= j2 < j && 0 <= k2 < op_operands(graph.nodes@[j2].op).len() ==> {
                        let v = #[trigger] op_operands(graph.nodes@[j2].op)[k2];
                        edge_gap(*graph, schedule@, j2, k2) >= 2 ==> to_insert@.contains(
                            (v, (edge_gap(*graph, schedule@, j2, k2) - 1) as usize),
                        )
                    },
        {
            let ops = operands_vec(&graph.nodes[j].op);
            let nops = ops.len();
            for k in 0..nops
                invariant
                    *graph == *old(graph),
                    graph.wf(),
                    n == graph.nodes@.len(),
                    j < n,
                    schedule@.len() == n,
                    nops == ops@.len(),
                    ops@ == op_operands(graph.nodes@[j as int].op),
                    forall|e: int|
                        0 <= e < to_insert@.len() ==> (#[trigger] to_insert@[e]).0.0
                            < graph.next_value,
                    forall|j2: int, k2: int|
                        0 <= j2 < j && 0 <= k2 < op_operands(graph.nodes@[j2].op).len() ==> {
                            let v = #[trigger] op_operands(graph.nodes@[j2].op)[k2];
                            edge_gap(*graph, schedule@, j2, k2) >= 2 ==> to_insert@.contains(
                                (v, (edge_gap(*graph, schedule@, j2, k2) - 1) as usize),
                            )
                        },
                    forall|k2: int|
                        0 <= k2 < k ==> {
                            let v = #[trigger] op_operands(graph.nodes@[j as int].op)[k2];
                            edge_gap(*graph, schedule@, j as int, k2) >= 2 ==> to_insert@.contains(
                                (v, (edge_gap(*graph, schedule@, j as int, k2) - 1) as usize),
                            )
                        },
            {
                proof {
                    assert(graph.node_wf(j as int));
                    assert(ops@[k as int] == op_operands(graph.nodes@[j as int].op)[k as int]);
                }
                let ghost pre_list = to_insert@;
                match lookup_producer(graph, ops[k]) {
                    Some(m) => {
                        let cp = schedule[m.0];
                        let cc = schedule[j];
                        if cc > cp && cc - cp >= 2 {
                            to_insert.push((ops[k], cc - cp - 1));
                            proof {
                                let x = (ops@[k as int], (cc - cp - 1) as usize);
                                assert(to_insert@[to_insert@.len() - 1] == x);
                                assert(to_insert@.contains(x));
                                assert(edge_gap(*graph, schedule@, j as int, k as int) == cc - cp);
                            }
                        }
                    },
                    None => {},
                }
                proof {
                    assert forall|x: (ValueId, usize)| pre_list.contains(x) implies
                        to_insert@.contains(x) by {
                        let e = choose|e: int| 0 <= e < pre_list.len() && pre_list[e] == x;
                        assert(to_insert@[e] == x);
                    }
                }
            }
        }
        let m_edges = to_insert.len();
        for e in 0..m_edges
            invariant
                graph.wf(),
                m_edges == to_insert@.len(),
                n == old(graph).nodes@.len(),
                schedule@.len() == n,
                graph.nodes@.len() >= n,
                graph.nodes@.subrange(0, n as int) == old(graph).nodes@,
                graph.next_value >= old(graph).next_value,
                forall|x: int|
                    n <= x < graph.nodes@.len() ==> (#[trigger] graph.nodes@[x].op)
                        is PipelineRegister,
                graph.pipeline_config == old(graph).pipeline_config,
                graph.pipeline_stages == old(graph).pipeline_stages,
                forall|e2: int|
                    0 <= e2 < m_edges ==> (#[trigger] to_insert@[e2]).0.0 < graph.next_value,
                forall|e2: int|
                    0 <= e2 < e ==> has_register_chain(
                        graph.nodes@,
                        (#[trigger] to_insert@[e2]).0,
                        to_insert@[e2].1 as nat,
                    ),
                forall|j2: int, k2: int|
                    0 <= j2 < n && 0 <= k2 < op_operands(old(graph).nodes@[j2].op).len() ==> {
                        let v = #[trigger] op_operands(old(graph).nodes@[j2].op)[k2];
                        edge_gap(*old(graph), schedule@, j2, k2) >= 2 ==> to_insert@.contains(
                            (v, (edge_gap(*old(graph), schedule@, j2, k2) - 1) as usize),
                        )
                    },
        {
            let pair = to_insert[e];
            let v0 = pair.0;
            let chain_len = pair.1;
            let ghost base = graph.nodes@.len() as int;
            let mut cur = v0;
            for t in 0..chain_len
                invariant
                    graph.wf(),
                    cur.0 < graph.next_value,
                    base >= n,
                    graph.nodes@.len() == base + t,
                    chain_to(graph.nodes@, base, v0, t as nat, cur),
                    n == old(graph).nodes@.len(),
                    graph.nodes@.subrange(0, n as int) == old(graph).nodes@,
                    graph.next_value >= old(graph).next_value,
                    forall|x: int|
                        n <= x < graph.nodes@.len() ==> (#[trigger] graph.nodes@[x].op)
                            is PipelineRegister,
                    graph.pipeline_config == old(graph).pipeline_config,
                    graph.pipeline_stages == old(graph).pipeline_stages,
                    m_edges == to_insert@.len(),
                    forall|e2: int|
                        0 <= e2 < m_edges ==> (#[trigger] to_insert@[e2]).0.0 < graph.next_value,
                    forall|e2: int|
                        0 <= e2 < e ==> has_register_chain(
                            graph.nodes@,
                            (#[trigger] to_insert@[e2]).0,
                            to_insert@[e2].1 as nat,
                        ),
            {
                let ghost pre_nodes = graph.nodes@;
                let ghost pre_cur = cur;
                cur = graph.insert_pipeline_register(cur);
                proof {
                    let reg = graph.nodes@.last();
                    lemma_chain_extend(
                        pre_nodes,
                        graph.nodes@,
                        base,
                        v0,
                        t as nat,
                        pre_cur,
                        reg,
                    );
                    assert(graph.nodes@.subrange(0, n as int) =~= pre_nodes.subrange(0, n as int));
                    assert forall|e2: int| 0 <= e2 < e implies has_register_chain(
                        graph.nodes@,
                        (#[trigger] to_insert@[e2]).0,
                        to_insert@[e2].1 as nat,
                    ) by {
                        let (st, ev) = choose|st: int, ev: ValueId|
                            chain_to(pre_nodes, st, to_insert@[e2].0, to_insert@[e2].1 as nat, ev);
                        assert(graph.nodes@.subrange(0, pre_nodes.len() as int) =~= pre_nodes);
                        lemma_chain_monotone(
                            pre_nodes,
                            graph.nodes@,
                            st,
                            to_insert@[e2].0,
                            to_insert@[e2].1 as nat,
                            ev,
                        );
                    }
                }
            }
            proof {
                assert(chain_to(graph.nodes@, base, v0, chain_len as nat, cur));
                assert(has_register_chain(graph.nodes@, v0, chain_len as nat));
            }
        }
        proof {
            assert forall|j2: int, k2: int|
                0 <= j2 < old(graph).nodes@.len() && 0 <= k2 < op_operands(
                    old(graph).nodes@[j2].op,
                ).len() implies {
                let v = #[trigger] op_operands(old(graph).nodes@[j2].op)[k2];
                edge_gap(*old(graph), schedule@, j2, k2) >= 2 ==> has_register_chain(
                    graph.nodes@,
                    v,
                    (edge_gap(*old(graph), schedule@, j2, k2) - 1) as nat,
                )
            } by {
                if edge_gap(*old(graph), schedule@, j2, k2) >= 2 {
                    let v = op_operands(old(graph).nodes@[j2].op)[k2];
                    let x = (v, (edge_gap(*old(graph), schedule@, j2, k2) - 1) as usize);
                    assert(to_insert@.contains(x));
                    let e2 = choose|e2: int| 0 <= e2 < to_insert@.len() && to_insert@[e2] == x;
                    assert(has_register_chain(graph.nodes@, to_insert@[e2].0, to_insert@[e2].1 as nat));
                }
            }
        }
        Ok(())
    }

    /// Materialize stages: group scheduled nodes by cycle, ascending, one
    /// stage per non-empty cycle, with dense stage indices.
    pub fn generate_pipeline_stages(&self, schedule: &Vec<usize>, _graph: &Graph) -> (r: Vec<
        PipelineStage,
    >)
        requires
            vmax(schedule@) < usize::MAX,
        ensures
            stages_of(r@, schedule@),
    {
        let n = schedule.len();
        let mut stages: Vec<PipelineStage> = Vec::new();
        if n == 0 {
            return stages;
        }
        let mut maxc: usize = 0;
        for i in 0..n
            invariant
                n == schedule@.len(),
                maxc as nat == vmax(schedule@.take(i as int)),
        {
            proof {
                assert(schedule@.take(i + 1).drop_last() =~= schedule@.take(i as int));
                assert(schedule@.take(i + 1).last() == schedule@[i as int]);
            }
            if schedule[i] > maxc {
                maxc = schedule[i];
            }
        }
        proof {
            assert(schedule@.take(n as int) =~= schedule@);
        }
        let mut c: usize = 0;
        while c <= maxc
            invariant
                n == schedule@.len(),
                n > 0,
                maxc as nat == vmax(schedule@),
                maxc < usize::MAX,
                c <= maxc + 1,
                forall|t: int| 0 <= t < stages@.len() ==> (#[trigger] stages@[t]).stage == t,
                forall|t: int| 0 <= t < stages@.len() ==> (#[trigger] stages@[t]).cycle < c,
                forall|t: int|
                    0 <= t < stages@.len() - 1 ==> (#[trigger] stages@[t]).cycle < stages@[t
                        + 1].cycle,
                forall|t: int|
                    0 <= t < stages@.len() ==> (#[trigger] stages@[t]).operations@ == nodes_at(
                        schedule@,
                        n as int,
                        stages@[t].cycle as int,
                    ),
                forall|t: int|
                    0 <= t < stages@.len() ==> nodes_at(
                        schedule@,
                        n as int,
                        (#[trigger] stages@[t]).cycle as int,
                    ).len() > 0,
                forall|c2: int|
                    0 <= c2 < c && #[trigger] nodes_at(schedule@, n as int, c2).len() > 0
                        ==> exists|t: int|
                        0 <= t < stages@.len() && (#[trigger] stages@[t]).cycle == c2,
            decreases maxc + 1 - c,
        {
            let mut ops_list: Vec<NodeId> = Vec::new();
            for i in 0..n
                invariant
                    n == schedule@.len(),
                    c <= maxc,
                    ops_list@ == nodes_at(schedule@, i as int, c as int),
            {
                if schedule[i] == c {
                    ops_list.push(NodeId(i));
                    proof {
                        assert(ops_list@ =~= nodes_at(schedule@, i + 1, c as int));
                    }
                } else {
                    proof {
                        assert(ops_list@ =~= nodes_at(schedule@, i + 1, c as int));
                    }
                }
            }
            let ghost opsv = ops_list@;
            let ghost pre_stages = stages@;
            proof {
                assert(opsv == nodes_at(schedule@, n as int, c as int));
            }
            if ops_list.len() > 0 {
                let st = PipelineStage { stage: stages.len(), cycle: c, operations: ops_list };
                stages.push(st);
            }
            proof {
                assert forall|c2: int|
                    0 <= c2 < c + 1 && #[trigger] nodes_at(schedule@, n as int, c2).len() > 0
                        implies exists|t: int|
                    0 <= t < stages@.len() && (#[trigger] stages@[t]).cycle == c2 by {
                    if c2 == c {
                        assert(nodes_at(schedule@, n as int, c2) == opsv);
                        assert(stages@[stages@.len() - 1].cycle == c2);
                    } else {
                        let t0 = choose|t: int|
                            0 <= t < pre_stages.len() && (#[trigger] pre_stages[t]).cycle == c2;
                        assert(stages@[t0].cycle == c2);
                    }
                }
            }
            c = c + 1;
        }
        proof {
            assert forall|c2: int|
                0 <= c2 && #[trigger] nodes_at(schedule@, n as int, c2).len() > 0 implies exists|
                t: int,
            |
                0 <= t < stages@.len() && (#[trigger] stages@[t]).cycle == c2 by {
                if c2 >= c {
                    lemma_nodes_at_beyond_max(schedule@, n as int, c2);
                }
            }
            assert forall|t: int, x: int|
                0 <= t < stages@.len() && 0 <= x < stages@[t].operations@.len()
                    implies (#[trigger] stages@[t].operations@[x]).0 < n by {
                lemma_nodes_at_ids(schedule@, n as int, stages@[t].cycle as int);
            }
        }
        stages
    }

    /// Schedule the graph into pipeline stages. A no-op when pipelining is
    /// disabled. Otherwise: dependency analysis, the ASAP and ALAP bounds,
    /// resource-constrained placement, register insertion on multi-cycle
    /// edges, and stage materialization.
    #[verifier::rlimit(100)]
    pub fn schedule_pipeline(&mut self, graph: &mut Graph) -> (r: Result<(), String>)
        requires
            old(graph).wf(),
            18 * old(graph).nodes@.len() + (old(graph).nodes@.len() + 1) * (19 + old(
                graph,
            ).nodes@.len()) < usize::MAX,
        ensures
            *final(self) == *old(self),
            final(graph).wf(),
            final(graph).pipeline_config == old(graph).pipeline_config,
            !old(graph).pipeline_config.enable ==> r is Ok && *final(graph) == *old(graph),
            old(graph).pipeline_config.enable ==> {
                &&& (r is Err <==> exists|i: int|
                    0 <= i < old(graph).nodes@.len() && op_class(
                        #[trigger] old(graph).nodes@[i].op,
                    ) != ResourceClass::Logic && old(self).resource_constraints.spec_budget(
                        op_class(old(graph).nodes@[i].op),
                    ) == 0)
                &&& (r is Err ==> *final(graph) == *old(graph))
                &&& (r is Ok ==> exists|s: Seq<usize>|
                    scheduled_with(
                        *old(graph),
                        *final(graph),
                        old(self).resource_constraints,
                        s,
                    ))
            },
    {
        if !graph.pipeline_config.enable {
            return Ok(());
        }
        let n = graph.nodes.len();
        let dependencies = self.build_dependency_graph(graph);
        let asap_schedule = match self.calculate_asap_schedule(graph, &dependencies) {
            Ok(s) => s,
            Err(e) => {
                return Err(e);
            },
        };
        let alap_schedule = match self.calculate_alap_schedule(
            graph,
            &dependencies,
            &asap_schedule,
        ) {
            Ok(s) => s,
            Err(e) => {
                return Err(e);
            },
        };
        proof {
            assert forall|i: int| 0 <= i < asap_schedule@.len() implies #[trigger] asap_schedule@[i]
                <= 18 * n as int by {
                assert(asap_schedule@[i] <= 18 * i);
            }
            lemma_vmax_le_bound(asap_schedule@, 18 * n as int);
        }
        let final_schedule = match self.resource_constrained_schedule(
            graph,
            &asap_schedule,
            &alap_schedule,
        ) {
            Ok(s) => s,
            Err(e) => {
                return Err(e);
            },
        };
        proof {
            assert forall|i: int| 0 <= i < final_schedule@.len() implies #[trigger]
                final_schedule@[i] <= 18 * n as int + (n as int + 1) * (19 + n as int) by {
                assert(final_schedule@[i] as int <= vmax(asap_schedule@) + (i + 1) * (19
                    + n as int));
                lemma_mul_inequality(i + 1, n as int + 1, 19 + n as int);
            }
            lemma_vmax_le_bound(
                final_schedule@,
                18 * n as int + (n as int + 1) * (19 + n as int),
            );
        }
        let ghost g_old = *graph;
        let ghost s_spec = final_schedule@;
        proof {
            assert forall|i: int|
                0 <= i < s_spec.len() implies #[trigger] s_spec[i] as int >= earliest_start_of(
                g_old,
                s_spec,
                i,
            ) && s_spec[i] as int <= earliest_start_of(g_old, s_spec, i) + class_total(
                g_old,
                i,
                op_class(g_old.nodes@[i].op),
            ) by {
                assert(asap_schedule@[i] as nat == asap_spec(g_old, i));
                assert(s_spec[i] as int >= earliest_start(g_old, s_spec, asap_schedule@, i));
                assert(earliest_start(g_old, s_spec, asap_schedule@, i) == earliest_start_of(
                    g_old,
                    s_spec,
                    i,
                ));
            }
            assert forall|i: int|
                0 <= i < s_spec.len() implies #[trigger] s_spec[i] as int == first_fit_of(
                g_old,
                self.resource_constraints,
                s_spec,
                i,
            ) by {
                assert(asap_schedule@[i] as nat == asap_spec(g_old, i));
                assert(s_spec[i] as int == first_fit_cycle(
                    g_old,
                    self.resource_constraints,
                    asap_schedule@,
                    s_spec,
                    i,
                ));
                assert(earliest_start(g_old, s_spec, asap_schedule@, i) == earliest_start_of(
                    g_old,
                    s_spec,
                    i,
                ));
            }
        }
        match self.insert_pipeline_registers(graph, &final_schedule) {
            Ok(_) => {},
            Err(e) => {
                return Err(e);
            },
        }
        let stages = self.generate_pipeline_stages(&final_schedule, graph);
        let ghost g_mid = *graph;
        graph.pipeline_stages = stages;
        proof {
            assert forall|i: int| 0 <= i < graph.nodes@.len() implies #[trigger] graph.node_wf(
                i,
            ) by {
                assert(g_mid.node_wf(i));
            }
            assert(scheduled_with(g_old, *graph, self.resource_constraints, s_spec));
        }
        Ok(())
    }
}

/// The relation between a graph before scheduling, the graph after, the
/// budgets in force, and the cycle assignment `s` of the original nodes:
/// every edge spans at least its producer's latency, no cycle exceeds any
/// class budget, no node starts before its ASAP cycle, the original nodes
/// are preserved in order with only register chains appended, multi-cycle
/// edges carry their register chains, and the stage list materializes `s`.
pub open spec fn scheduled_with(
    g_old: Graph,
    g_new: Graph,
    rc: ResourceConstraints,
    s: Seq<usize>,
) -> bool {
    &&& s.len() == g_old.nodes@.len()
    &&& forall|i: int| 0 <= i < s.len() ==> #[trigger] s[i] as nat >= asap_spec(g_old, i)
    &&& schedule_respects_deps(g_old, s)
    &&& schedule_respects_budgets(g_old, s, rc)
    &&& forall|i: int|
        0 <= i < s.len() ==> #[trigger] s[i] as int == first_fit_of(g_old, rc, s, i)
    &&& forall|i: int|
        0 <= i < s.len() ==> #[trigger] s[i] as int >= earliest_start_of(g_old, s, i)
    &&& forall|i: int|
        0 <= i < s.len() ==> #[trigger] s[i] as int <= earliest_start_of(g_old, s, i)
            + class_total(g_old, i, op_class(g_old.nodes@[i].op))
    &&& g_new.nodes@.len() >= g_old.nodes@.len()
    &&& g_new.nodes@.subrange(0, g_old.nodes@.len() as int) == g_old.nodes@
    &&& forall|x: int|
        g_old.nodes@.len() <= x < g_new.nodes@.len() ==> (#[trigger] g_new.nodes@[x].op)
            is PipelineRegister
    &&& registers_inserted(g_old, g_new.nodes@, s)
    &&& stages_of(g_new.pipeline_stages@, s)
}

/// Every prefix of two schedules that both place each node at its
/// first-fit cycle agrees.
proof fn lemma_first_fit_prefix_equal(
    g: Graph,
    rc: ResourceConstraints,
    s1: Seq<usize>,
    s2: Seq<usize>,
    k: int,
)
    requires
        k <= s1.len() == g.nodes@.len(),
        s2.len() == g.nodes@.len(),
        forall|i: int| 0 <= i < s1.len() ==> #[trigger] s1[i] as int == first_fit_of(g, rc, s1, i),
        forall|i: int| 0 <= i < s2.len() ==> #[trigger] s2[i] as int == first_fit_of(g, rc, s2, i),
    ensures
        forall|j: int| 0 <= j < k ==> s1[j] == s2[j],
    decreases k,
{
    if k > 0 {
        lemma_first_fit_prefix_equal(g, rc, s1, s2, k - 1);
        lemma_earliest_prefix(
            g,
            s1,
            s2,
            op_operands(g.nodes@[k - 1].op),
            k - 1,
            asap_spec(g, k - 1) as int,
        );
        lemma_first_fit_prefix(
            g,
            s1,
            s2,
            k - 1,
            op_class(g.nodes@[k - 1].op),
            rc.spec_budget(op_class(g.nodes@[k - 1].op)),
            earliest_start_of(g, s1, k - 1),
            (class_total(g, k - 1, op_class(g.nodes@[k - 1].op)) + 1) as nat,
        );
        assert(s1[k - 1] as int == first_fit_of(g, rc, s1, k - 1));
        assert(s2[k - 1] as int == first_fit_of(g, rc, s2, k - 1));
    }
}

/// Scheduling is deterministic: the first-fit placement relation is a
/// function of the graph and the budgets, so any two cycle assignments
/// satisfying it pointwise are equal. Together with the stage
/// characterization and the pinned emission text, building and scheduling
/// the same graph twice yields the same schedule.
pub proof fn lemma_schedule_determined(
    g: Graph,
    rc: ResourceConstraints,
    s1: Seq<usize>,
    s2: Seq<usize>,
)
    requires
        s1.len() == g.nodes@.len(),
        s2.len() == g.nodes@.len(),
        forall|i: int| 0 <= i < s1.len() ==> #[trigger] s1[i] as int == first_fit_of(g, rc, s1, i),
        forall|i: int| 0 <= i < s2.len() ==> #[trigger] s2[i] as int == first_fit_of(g, rc, s2, i),
    ensures
        s1 == s2,
{
    lemma_first_fit_prefix_equal(g, rc, s1, s2, s1.len() as int);
    assert(s1 =~= s2);
}

/// Run pipeline scheduling on a graph with a freshly built scheduler. With
/// the default budgets (all positive) scheduling cannot fail.
pub fn run_pipeline_pass(graph: &mut Graph) -> (r: Result<(), String>)
    requires
        old(graph).wf(),
        18 * old(graph).nodes@.len() + (old(graph).nodes@.len() + 1) * (19 + old(
            graph,
        ).nodes@.len()) < usize::MAX,
    ensures
        r is Ok,
        final(graph).wf(),
        final(graph).pipeline_config == old(graph).pipeline_config,
        !old(graph).pipeline_config.enable ==> *final(graph) == *old(graph),
        old(graph).pipeline_config.enable ==> exists|s: Seq<usize>|
            scheduled_with(
                *old(graph),
                *final(graph),
                ResourceConstraints { adder: 100, multiplier: 12, divider: 4, memory: 8 },
                s,
            ),
{
    let mut scheduler = PipelineScheduler::new();
    let r = scheduler.schedule_pipeline(graph);
    proof {
        if old(graph).pipeline_config.enable {
            assert forall|i: int| 0 <= i < old(graph).nodes@.len() implies !(op_class(
                #[trigger] old(graph).nodes@[i].op,
            ) != ResourceClass::Logic && scheduler.resource_constraints.spec_budget(
                op_class(old(graph).nodes@[i].op),
            ) == 0) by {}
        }
    }
    r
}

/// Sum of the entries of a usage row.
pub open spec fn seq_sum(s: Seq<usize>) -> int
    decreases s.len(),
{
    if s.len() == 0 {
        0
    } else {
        seq_sum(s.drop_last()) + s.last()
    }
}

/// The usage recorded at `c`: the entry there, or zero beyond the row.
pub open spec fn cycle_usage(s: Seq<usize>, c: int) -> nat {
    if 0 <= c < s.len() {
        s[c] as nat
    } else {
        0
    }
}

/// A contiguous run of `len` pipeline-register nodes beginning at `start`:
/// the first consumes `v`, each next consumes the previous one's output, and
/// `end_val` is the value carried out (or `v` itself when `len` is zero).
pub open spec fn chain_to(nodes: Seq<Node>, start: int, v: ValueId, len: nat, end_val: ValueId) -> bool
    decreases len,
{
    if len == 0 {
        end_val == v
    } else {
        &&& 0 <= start < nodes.len()
        &&& nodes[start].op == Operation::PipelineRegister(v)
        &&& match nodes[start].output {
            Some(v2) => chain_to(nodes, start + 1, v2, (len - 1) as nat, end_val),
            None => false,
        }
    }
}

/// The node list holds a register chain of length `len` rooted at `v`.
pub open spec fn has_register_chain(nodes: Seq<Node>, v: ValueId, len: nat) -> bool {
    exists|start: int, end_val: ValueId| chain_to(nodes, start, v, len, end_val)
}

/// A chain survives appending nodes after it.
proof fn lemma_chain_monotone(
    n1: Seq<Node>,
    n2: Seq<Node>,
    start: int,
    v: ValueId,
    len: nat,
    ev: ValueId,
)
    requires
        chain_to(n1, start, v, len, ev),
        n2.len() >= n1.len(),
        n2.subrange(0, n1.len() as int) == n1,
    ensures
        chain_to(n2, start, v, len, ev),
    decreases len,
{
    if len > 0 {
        assert(n2[start] == n2.subrange(0, n1.len() as int)[start]);
        lemma_chain_monotone(n1, n2, start + 1, n1[start].output.unwrap(), (len - 1) as nat, ev);
    }
}

/// A chain that reaches the end of the list grows by appending one more
/// register that consumes its carried value.
proof fn lemma_chain_extend(
    n1: Seq<Node>,
    n2: Seq<Node>,
    start: int,
    v: ValueId,
    len: nat,
    ev: ValueId,
    reg: Node,
)
    requires
        chain_to(n1, start, v, len, ev),
        start + len == n1.len(),
        start >= 0,
        n2 == n1.push(reg),
        reg.op == Operation::PipelineRegister(ev),
        reg.output is Some,
    ensures
        chain_to(n2, start, v, (len + 1) as nat, reg.output.unwrap()),
    decreases len,
{
    if len == 0 {
        assert(n2[start] == reg);
        assert(chain_to(n2, start + 1, reg.output.unwrap(), 0, reg.output.unwrap()));
        assert(chain_to(n2, start, v, 1, reg.output.unwrap()));
    } else {
        assert(n2[start] == n1[start]);
        lemma_chain_extend(
            n1,
            n2,
            start + 1,
            n1[start].output.unwrap(),
            (len - 1) as nat,
            ev,
            reg,
        );
        assert(chain_to(n2, start, v, (len + 1) as nat, reg.output.unwrap()));
    }
}

/// The nodes scheduled at cycle `c` among the first `upto`, in index order.
pub open spec fn nodes_at(s: Seq<usize>, upto: int, c: int) -> Seq<NodeId>
    decreases upto,
{
    if upto <= 0 {
        Seq::empty()
    } else {
        nodes_at(s, upto - 1, c) + (if s[upto - 1] == c {
            seq![NodeId((upto - 1) as usize)]
        } else {
            Seq::empty()
        })
    }
}

/// The node identifiers a cycle's group holds all index covered nodes.
proof fn lemma_nodes_at_ids(s: Seq<usize>, upto: int, c: int)
    ensures
        forall|x: int|
            0 <= x < nodes_at(s, upto, c).len() ==> (#[trigger] nodes_at(s, upto, c)[x]).0 < upto,
    decreases upto,
{
    if upto > 0 {
        lemma_nodes_at_ids(s, upto - 1, c);
        assert forall|x: int|
            0 <= x < nodes_at(s, upto, c).len() implies (#[trigger] nodes_at(s, upto, c)[x]).0
            < upto by {
            if x < nodes_at(s, upto - 1, c).len() {
                assert(nodes_at(s, upto, c)[x] == nodes_at(s, upto - 1, c)[x]);
            }
        }
    }
}

/// Beyond the maximum scheduled cycle no node is scheduled.
proof fn lemma_nodes_at_beyond_max(s: Seq<usize>, upto: int, c: int)
    requires
        0 <= upto <= s.len(),
        c > vmax(s),
    ensures
        nodes_at(s, upto, c).len() == 0,
    decreases upto,
{
    if upto > 0 {
        lemma_nodes_at_beyond_max(s, upto - 1, c);
        lemma_vmax_ge(s, upto - 1);
    }
}

/// A pointwise bound on the entries bounds the maximum.
proof fn lemma_vmax_le_bound(s: Seq<usize>, b: int)
    requires
        forall|i: int| 0 <= i < s.len() ==> #[trigger] s[i] <= b,
        b >= 0,
    ensures
        vmax(s) <= b,
    decreases s.len(),
{
    if s.len() > 0 {
        lemma_vmax_le_bound(s.drop_last(), b);
    }
}

/// The value an operand edge crosses, and the cycles it spans.
pub open spec fn edge_value(g: Graph, j: int, k: int) -> ValueId {
    op_operands(g.nodes@[j].op)[k]
}

/// Cycle span of the operand edge into slot `k` of node `j` (zero when the
/// operand has no bound producer).
pub open spec fn edge_gap(g: Graph, s: Seq<usize>, j: int, k: int) -> int {
    match g.producer_of(edge_value(g, j, k)) {
        Some(m) => s[j] - s[m.0 as int],
        None => 0,
    }
}

/// Every operand edge spanning two or more cycles has a register chain, in
/// the final node list, of one register per intervening cycle, rooted at the
/// value the edge carries.
pub open spec fn registers_inserted(g_old: Graph, nodes_new: Seq<Node>, s: Seq<usize>) -> bool {
    forall|j: int, k: int|
        0 <= j < g_old.nodes@.len() && 0 <= k < op_operands(g_old.nodes@[j].op).len() ==> {
            let v = #[trigger] op_operands(g_old.nodes@[j].op)[k];
            edge_gap(g_old, s, j, k) >= 2 ==> has_register_chain(
                nodes_new,
                v,
                (edge_gap(g_old, s, j, k) - 1) as nat,
            )
        }
}

/// The stage list materialized from a schedule: dense stage indices,
/// strictly ascending cycles, exactly the scheduled nodes of each non-empty
/// cycle in node order, and a stage for every non-empty cycle. Only the
/// nodes covered by `s` appear: register nodes inserted afterwards belong
/// to no stage (the emitter resolves cross-stage references by register
/// name, so the stage list deliberately materializes the cycle assignment
/// of the pre-insertion nodes alone).
pub open spec fn stages_of(stages: Seq<PipelineStage>, s: Seq<usize>) -> bool {
    &&& forall|t: int| 0 <= t < stages.len() ==> (#[trigger] stages[t]).stage == t
    &&& forall|t: int|
        0 <= t < stages.len() - 1 ==> (#[trigger] stages[t]).cycle < stages[t + 1].cycle
    &&& forall|t: int|
        0 <= t < stages.len() ==> (#[trigger] stages[t]).operations@ == nodes_at(
            s,
            s.len() as int,
            stages[t].cycle as int,
        )
    &&& forall|t: int|
        0 <= t < stages.len() ==> nodes_at(
            s,
            s.len() as int,
            (#[trigger] stages[t]).cycle as int,
        ).len() > 0
    &&& forall|c: int|
        0 <= c && #[trigger] nodes_at(s, s.len() as int, c).len() > 0 ==> exists|t: int|
            0 <= t < stages.len() && (#[trigger] stages[t]).cycle == c
    &&& forall|t: int, x: int|
        0 <= t < stages.len() && 0 <= x < stages[t].operations@.len()
            ==> (#[trigger] stages[t].operations@[x]).0 < s.len()
}

/// Arithmetic about the placement bound `amax + (i + 1) * (19 + n)`.
proof fn lemma_span_bounds(i: int, n: int)
    requires
        0 <= i < n,
    ensures
        (i + 1) * (19 + n) == i * (19 + n) + (19 + n),
        (i + 1) * (19 + n) <= (n + 1) * (19 + n),
        i * (19 + n) <= n * (19 + n),
        n * (19 + n) + (19 + n) == (n + 1) * (19 + n),
        i * (19 + n) >= 0,
{
    lemma_mul_is_distributive_add_other_way(19 + n, i, 1);
    lemma_mul_is_distributive_add_other_way(19 + n, n, 1);
    lemma_mul_inequality(i + 1, n + 1, 19 + n);
    lemma_mul_inequality(i, n, 19 + n);
    lemma_mul_inequality(0, i, 19 + n);
}

proof fn lemma_seq_sum_nonneg(s: Seq<usize>)
    ensures
        seq_sum(s) >= 0,
    decreases s.len(),
{
    if s.len() > 0 {
        lemma_seq_sum_nonneg(s.drop_last());
    }
}

proof fn lemma_seq_sum_push(s: Seq<usize>, v: usize)
    ensures
        seq_sum(s.push(v)) == seq_sum(s) + v,
{
    assert(s.push(v).drop_last() =~= s);
}

proof fn lemma_seq_sum_update(s: Seq<usize>, k: int, v: usize)
    requires
        0 <= k < s.len(),
    ensures
        seq_sum(s.update(k, v)) == seq_sum(s) - s[k] + v,
    decreases s.len(),
{
    if k == s.len() - 1 {
        assert(s.update(k, v).drop_last() =~= s.drop_last());
    } else {
        assert(s.update(k, v).drop_last() =~= s.drop_last().update(k, v));
        lemma_seq_sum_update(s.drop_last(), k, v);
    }
}

/// If every entry of a window of the row is at least one, the row's sum is
/// at least the window's width.
proof fn lemma_seq_sum_window(s: Seq<usize>, a: int, b: int)
    requires
        0 <= a <= b <= s.len(),
        forall|k: int| a <= k < b ==> s[k] >= 1,
    ensures
        seq_sum(s) >= b - a,
    decreases s.len(),
{
    if b == a {
        lemma_seq_sum_nonneg(s);
    } else if b < s.len() {
        lemma_seq_sum_window(s.drop_last(), a, b);
    } else {
        lemma_seq_sum_window(s.drop_last(), a, b - 1);
    }
}

/// Pigeonhole for placement: a row whose sum is at most `total` has, in any
/// window of `total + 1` cycles, one cycle whose usage is under any positive
/// budget.
proof fn lemma_exists_free_cycle(s: Seq<usize>, lower: int, total: int, budget: int)
    requires
        budget >= 1,
        seq_sum(s) <= total,
        0 <= total,
        0 <= lower,
    ensures
        exists|c: int| lower <= c <= lower + total && cycle_usage(s, c) < budget,
{
    if lower + total >= s.len() {
        assert(cycle_usage(s, lower + total) == 0);
        assert(lower <= lower + total <= lower + total && cycle_usage(s, lower + total) < budget);
    } else {
        if forall|c: int| lower <= c <= lower + total ==> #[trigger] cycle_usage(s, c) >= budget {
            assert forall|k: int| lower <= k < lower + total + 1 implies s[k] >= 1 by {
                assert(cycle_usage(s, k) >= budget);
            }
            lemma_seq_sum_window(s, lower, lower + total + 1);
            assert(false);
        }
    }
}

/// How many of the first `upto` nodes have class `c` and are scheduled at
/// cycle `cyc`.
pub open spec fn class_count_at(
    g: Graph,
    s: Seq<usize>,
    upto: int,
    cyc: int,
    c: ResourceClass,
) -> int
    decreases upto,
{
    if upto <= 0 {
        0
    } else {
        class_count_at(g, s, upto - 1, cyc, c) + (if op_class(g.nodes@[upto - 1].op) == c && s[upto
            - 1] == cyc {
            1int
        } else {
            0int
        })
    }
}

/// How many of the first `upto` nodes have class `c`.
pub open spec fn class_total(g: Graph, upto: int, c: ResourceClass) -> int
    decreases upto,
{
    if upto <= 0 {
        0
    } else {
        class_total(g, upto - 1, c) + (if op_class(g.nodes@[upto - 1].op) == c {
            1int
        } else {
            0int
        })
    }
}

proof fn lemma_class_total_bound(g: Graph, upto: int, c: ResourceClass)
    requires
        upto >= 0,
    ensures
        0 <= class_total(g, upto, c) <= upto,
    decreases upto,
{
    if upto > 0 {
        lemma_class_total_bound(g, upto - 1, c);
    }
}

/// The per-node count over a prefix reads only that prefix of the schedule.
proof fn lemma_class_count_prefix(
    g: Graph,
    s1: Seq<usize>,
    s2: Seq<usize>,
    upto: int,
    cyc: int,
    c: ResourceClass,
)
    requires
        upto <= s1.len(),
        upto <= s2.len(),
        forall|j: int| 0 <= j < upto ==> s1[j] == s2[j],
    ensures
        class_count_at(g, s1, upto, cyc, c) == class_count_at(g, s2, upto, cyc, c),
    decreases upto,
{
    if upto > 0 {
        lemma_class_count_prefix(g, s1, s2, upto - 1, cyc, c);
    }
}

/// Every entry of a sequence is at most its maximum.
proof fn lemma_vmax_ge(s: Seq<usize>, i: int)
    requires
        0 <= i < s.len(),
    ensures
        s[i] as nat <= vmax(s),
    decreases s.len(),
{
    if i < s.len() - 1 {
        lemma_vmax_ge(s.drop_last(), i);
    }
}

/// Per-cycle usage rows for the four bounded resource classes.
struct UsageTable {
    adder: Vec<usize>,
    multiplier: Vec<usize>,
    divider: Vec<usize>,
    memory: Vec<usize>,
}

impl UsageTable {
    /// The usage row of a class (`Logic` is untracked).
    spec fn tab(self, c: ResourceClass) -> Seq<usize> {
        match c {
            ResourceClass::Adder => self.adder@,
            ResourceClass::Multiplier => self.multiplier@,
            ResourceClass::Divider => self.divider@,
            ResourceClass::Memory => self.memory@,
            ResourceClass::Logic => Seq::empty(),
        }
    }

    fn new() -> (r: Self)
        ensures
            forall|c: ResourceClass| #[trigger] r.tab(c) =~= Seq::<usize>::empty(),
    {
        UsageTable {
            adder: Vec::new(),
            multiplier: Vec::new(),
            divider: Vec::new(),
            memory: Vec::new(),
        }
    }

    /// Usage recorded for class `c` at `cycle`.
    fn count_at(&self, c: ResourceClass, cycle: usize) -> (r: usize)
        ensures
            r as nat == cycle_usage(self.tab(c), cycle as int),
    {
        let row = match c {
            ResourceClass::Adder => &self.adder,
            ResourceClass::Multiplier => &self.multiplier,
            ResourceClass::Divider => &self.divider,
            ResourceClass::Memory => &self.memory,
            ResourceClass::Logic => {
                return 0;
            },
        };
        if cycle < row.len() {
            row[cycle]
        } else {
            0
        }
    }

    /// Record one more node of class `c` at `cycle`.
    fn reserve(&mut self, c: ResourceClass, cycle: usize)
        requires
            c != ResourceClass::Logic,
            cycle_usage(old(self).tab(c), cycle as int) < usize::MAX,
            cycle < usize::MAX,
        ensures
            forall|c2: ResourceClass|
                c2 != c ==> #[trigger] final(self).tab(c2) == old(self).tab(c2),
            cycle_usage(final(self).tab(c), cycle as int) == cycle_usage(
                old(self).tab(c),
                cycle as int,
            ) + 1,
            forall|x: int|
                x != cycle ==> #[trigger] cycle_usage(final(self).tab(c), x) == cycle_usage(
                    old(self).tab(c),
                    x,
                ),
            seq_sum(final(self).tab(c)) == seq_sum(old(self).tab(c)) + 1,
    {
        match c {
            ResourceClass::Adder => bump_row(&mut self.adder, cycle),
            ResourceClass::Multiplier => bump_row(&mut self.multiplier, cycle),
            ResourceClass::Divider => bump_row(&mut self.divider, cycle),
            ResourceClass::Memory => bump_row(&mut self.memory, cycle),
            ResourceClass::Logic => {
                proof {
                    assert(false);
                }
            },
        }
    }
}

/// Grow a usage row to reach `cycle` and add one there.
fn bump_row(row: &mut Vec<usize>, cycle: usize)
    requires
        cycle_usage(old(row)@, cycle as int) < usize::MAX,
        cycle < usize::MAX,
    ensures
        cycle_usage(final(row)@, cycle as int) == cycle_usage(old(row)@, cycle as int) + 1,
        forall|x: int|
            x != cycle ==> #[trigger] cycle_usage(final(row)@, x) == cycle_usage(old(row)@, x),
        seq_sum(final(row)@) == seq_sum(old(row)@) + 1,
{
    while row.len() <= cycle
        invariant
            cycle < usize::MAX,
            seq_sum(row@) == seq_sum(old(row)@),
            forall|x: int| #[trigger] cycle_usage(row@, x) == cycle_usage(old(row)@, x),
        decreases cycle + 1 - row@.len(),
    {
        proof {
            lemma_seq_sum_push(row@, 0);
            assert(forall|x: int| #[trigger]
                cycle_usage(row@.push(0), x) == cycle_usage(row@, x));
        }
        row.push(0);
    }
    let cur = row[cycle];
    let ghost pre = row@;
    proof {
        assert(cycle_usage(pre, cycle as int) == cycle_usage(old(row)@, cycle as int));
        assert(cur < usize::MAX);
        lemma_seq_sum_update(pre, cycle as int, (cur + 1) as usize);
    }
    row.set(cycle, cur + 1);
    proof {
        assert forall|x: int| x != cycle implies cycle_usage(row@, x) == cycle_usage(
            old(row)@,
            x,
        ) by {
            assert(cycle_usage(pre, x) == cycle_usage(old(row)@, x));
        }
    }
}

/// The operands of an operation, as `op_operands` states them.
fn operands_vec(op: &Operation) -> (r: Vec<ValueId>)
    ensures
        r@ == op_operands(*op),
{
    let mut v: Vec<ValueId> = Vec::new();
    match op {
        Operation::Add(a, b)
        | Operation::Sub(a, b)
        | Operation::Mul(a, b)
        | Operation::Div(a, b)
        | Operation::And(a, b)
        | Operation::Or(a, b)
        | Operation::CmpLt(a, b)
        | Operation::CmpEq(a, b) => {
            v.push(*a);
            v.push(*b);
        },
        Operation::Not(a) | Operation::PipelineRegister(a) => {
            v.push(*a);
        },
        Operation::Mux(s, a, b) => {
            v.push(*s);
            v.push(*a);
            v.push(*b);
        },
        Operation::Store(_, val) => {
            v.push(*val);
        },
        Operation::Load(_) | Operation::Const(_) | Operation::PipelineBarrier
        | Operation::Nop => {},
    }
    proof {
        assert(v@ =~= op_operands(*op));
    }
    v
}

/// Producer lookup, as `Graph::producer_of` states it.
fn lookup_producer(graph: &Graph, v: ValueId) -> (r: Option<NodeId>)
    ensures
        r == graph.producer_of(v),
{
    if v.0 < graph.value_map.len() {
        graph.value_map[v.0]
    } else {
        None
    }
}

} // verus!
