//! Lowering from the expression tree to the dataflow graph. Each input name
//! is loaded once and reused; every other node is appended in evaluation
//! order, so the graph is topological by construction. The relation
//! `lowers_to` pins the produced node list to the expression.

use vstd::prelude::*;
use crate::ast::Expr;
use crate::graph::{Graph, Node, NodeId, Operation, ValueId};

verus! {

/// Every value bound in the environment has been minted by the graph.
pub open spec fn env_wf(env: Seq<(String, ValueId)>, g: Graph) -> bool {
    forall|i: int| 0 <= i < env.len() ==> (#[trigger] env[i]).1.0 < g.next_value
}

/// The views of the environment entries.
pub open spec fn env_views(env: Seq<(String, ValueId)>) -> Seq<(Seq<char>, ValueId)> {
    env.map_values(|p: (String, ValueId)| (p.0@, p.1))
}

/// The first binding of `name`, scanning from the front.
pub open spec fn env_lookup(env: Seq<(Seq<char>, ValueId)>, name: Seq<char>) -> Option<ValueId>
    decreases env.len(),
{
    if env.len() == 0 {
        None
    } else if env[0].0 == name {
        Some(env[0].1)
    } else {
        env_lookup(env.drop_first(), name)
    }
}

/// The state the lowering threads: the node list, the producer map, and
/// the environment binding each already-loaded input name to its value.
pub ghost struct LowerState {
    pub nodes: Seq<Node>,
    pub vmap: Seq<Option<NodeId>>,
    pub env: Seq<(Seq<char>, ValueId)>,
}

/// One appended node that produces the fresh value `r`.
pub open spec fn value_node_append(
    pre: LowerState,
    post: LowerState,
    op: Operation,
    r: ValueId,
) -> bool {
    &&& r == ValueId(pre.vmap.len() as usize)
    &&& post.nodes == pre.nodes.push(
        Node { id: NodeId(pre.nodes.len() as usize), op, output: Some(r) },
    )
    &&& post.vmap == pre.vmap.push(Some(NodeId(pre.nodes.len() as usize)))
    &&& post.env == pre.env
}

/// The number of nodes of an expression tree (at least one).
pub open spec fn expr_size(e: Expr) -> nat
    decreases e,
{
    match e {
        Expr::Input { .. } => 1,
        Expr::Const { .. } => 1,
        Expr::Add(l, rr) => 1 + expr_size(*l) + expr_size(*rr),
        Expr::Sub(l, rr) => 1 + expr_size(*l) + expr_size(*rr),
        Expr::Mul(l, rr) => 1 + expr_size(*l) + expr_size(*rr),
        Expr::Output { name: _, expr: inner } => 1 + expr_size(*inner),
    }
}

/// A trigger hook naming the intermediate states and operand values of a
/// connective's lowering; always true, it only guides instantiation.
pub open spec fn mid_states(m1: LowerState, m2: LowerState, a: ValueId, b: ValueId) -> bool {
    true
}

/// A trigger hook naming the intermediate state of an output's lowering.
pub open spec fn mid_state(m1: LowerState) -> bool {
    true
}

/// How lowering transforms the state, and which value it returns: a
/// constant appends one `Const` node; a first-use input appends a `Load`
/// of that name and binds it, while a repeated input reuses its binding;
/// the connectives lower their operands left to right and append the
/// operation node; an output lowers its body and appends the `Store`
/// sink, returning the stored value. This pins the lowered node list (the
/// names by view).
pub open spec fn lowers_to(e: Expr, pre: LowerState, post: LowerState, r: ValueId) -> bool
    decreases expr_size(e), 1int,
{
    match e {
        Expr::Const { value, width: _ } => value_node_append(
            pre,
            post,
            Operation::Const(value as i64),
            r,
        ),
        Expr::Input { name, width: _ } => {
            match env_lookup(pre.env, name@) {
                Some(v) => post == pre && r == v,
                None => {
                    &&& r == ValueId(pre.vmap.len() as usize)
                    &&& post.nodes.len() == pre.nodes.len() + 1
                    &&& post.nodes.drop_last() == pre.nodes
                    &&& post.nodes.last().id == NodeId(pre.nodes.len() as usize)
                    &&& post.nodes.last().output == Some(r)
                    &&& (post.nodes.last().op matches Operation::Load(nm) && nm@ == name@)
                    &&& post.vmap == pre.vmap.push(Some(NodeId(pre.nodes.len() as usize)))
                    &&& post.env == pre.env.push((name@, r))
                },
            }
        },
        Expr::Add(l, rr) => exists|m1: LowerState, m2: LowerState, a: ValueId, b: ValueId|
            {
                &&& #[trigger] mid_states(m1, m2, a, b)
                &&& lowers_to(*l, pre, m1, a)
                &&& lowers_to(*rr, m1, m2, b)
                &&& value_node_append(m2, post, Operation::Add(a, b), r)
            },
        Expr::Sub(l, rr) => exists|m1: LowerState, m2: LowerState, a: ValueId, b: ValueId|
            {
                &&& #[trigger] mid_states(m1, m2, a, b)
                &&& lowers_to(*l, pre, m1, a)
                &&& lowers_to(*rr, m1, m2, b)
                &&& value_node_append(m2, post, Operation::Sub(a, b), r)
            },
        Expr::Mul(l, rr) => exists|m1: LowerState, m2: LowerState, a: ValueId, b: ValueId|
            {
                &&& #[trigger] mid_states(m1, m2, a, b)
                &&& lowers_to(*l, pre, m1, a)
                &&& lowers_to(*rr, m1, m2, b)
                &&& value_node_append(m2, post, Operation::Mul(a, b), r)
            },
        Expr::Output { name, expr: inner } => exists|m1: LowerState|
            {
                &&& #[trigger] mid_state(m1)
                &&& lowers_to(*inner, pre, m1, r)
                &&& post.nodes.len() == m1.nodes.len() + 1
                &&& post.nodes.drop_last() == m1.nodes
                &&& post.nodes.last().id == NodeId(m1.nodes.len() as usize)
                &&& post.nodes.last().output is None
                &&& (post.nodes.last().op matches Operation::Store(nm, sv) && nm@ == name@ && sv
                    == r)
                &&& post.vmap == m1.vmap
                &&& post.env == m1.env
            },
    }
}

/// The abstract state of a graph plus an environment.
pub open spec fn lower_state_of(g: Graph, env: Seq<(String, ValueId)>) -> LowerState {
    LowerState { nodes: g.nodes@, vmap: g.value_map@, env: env_views(env) }
}

/// Looking up a name whose first occurrence is at `j` yields that binding.
proof fn lemma_env_lookup_at(s: Seq<(Seq<char>, ValueId)>, name: Seq<char>, j: int)
    requires
        0 <= j < s.len(),
        s[j].0 == name,
        forall|k: int| 0 <= k < j ==> (#[trigger] s[k]).0 != name,
    ensures
        env_lookup(s, name) == Some(s[j].1),
    decreases j,
{
    if j > 0 {
        assert(s.drop_first()[j - 1] == s[j]);
        assert forall|k: int| 0 <= k < j - 1 implies (#[trigger] s.drop_first()[k]).0 != name by {
            assert(s.drop_first()[k] == s[k + 1]);
        }
        lemma_env_lookup_at(s.drop_first(), name, j - 1);
    }
}

/// Looking up a name bound nowhere yields nothing.
proof fn lemma_env_lookup_none(s: Seq<(Seq<char>, ValueId)>, name: Seq<char>)
    requires
        forall|k: int| 0 <= k < s.len() ==> (#[trigger] s[k]).0 != name,
    ensures
        env_lookup(s, name) is None,
    decreases s.len(),
{
    if s.len() > 0 {
        assert forall|k: int|
            0 <= k < s.drop_first().len() implies (#[trigger] s.drop_first()[k]).0 != name by {
            assert(s.drop_first()[k] == s[k + 1]);
        }
        lemma_env_lookup_none(s.drop_first(), name);
    }
}

/// Lower a single expression into a fresh graph. The produced node list is
/// pinned by the `lowers_to` relation from the empty state.
pub fn lower_expr_to_graph(expr: &Expr) -> (r: Graph)
    ensures
        r.wf(),
        !r.pipeline_config.enable,
        r.pipeline_stages@.len() == 0,
        exists|post_env: Seq<(Seq<char>, ValueId)>, res: ValueId|
            #[trigger] lowers_to(
                *expr,
                LowerState { nodes: Seq::empty(), vmap: Seq::empty(), env: Seq::empty() },
                LowerState { nodes: r.nodes@, vmap: r.value_map@, env: post_env },
                res,
            ),
{
    let mut graph = Graph::new();
    let mut env: Vec<(String, ValueId)> = Vec::new();
    let ghost st0 = lower_state_of(graph, env@);
    let result = lower_expr(expr, &mut graph, &mut env);
    proof {
        assert(st0 == (LowerState {
            nodes: Seq::<Node>::empty(),
            vmap: Seq::<Option<NodeId>>::empty(),
            env: Seq::<(Seq<char>, ValueId)>::empty(),
        })) by {
            assert(st0.nodes =~= Seq::<Node>::empty());
            assert(st0.vmap =~= Seq::<Option<NodeId>>::empty());
            assert(st0.env =~= Seq::<(Seq<char>, ValueId)>::empty());
        }
        assert(lowers_to(
            *expr,
            LowerState { nodes: Seq::empty(), vmap: Seq::empty(), env: Seq::empty() },
            LowerState { nodes: graph.nodes@, vmap: graph.value_map@, env: env_views(env@) },
            result,
        ));
    }
    graph
}

/// Lower one expression, appending its nodes to the graph; returns the
/// value holding the expression's result (for an output, the stored
/// value). The transformation is pinned by `lowers_to`.
fn lower_expr(expr: &Expr, graph: &mut Graph, env: &mut Vec<(String, ValueId)>) -> (r: ValueId)
    requires
        old(graph).wf(),
        env_wf(old(env)@, *old(graph)),
    ensures
        final(graph).wf(),
        env_wf(final(env)@, *final(graph)),
        r.0 < final(graph).next_value,
        final(graph).next_value >= old(graph).next_value,
        final(graph).nodes@.len() >= old(graph).nodes@.len(),
        final(graph).nodes@.subrange(0, old(graph).nodes@.len() as int) == old(graph).nodes@,
        final(graph).pipeline_config == old(graph).pipeline_config,
        final(graph).pipeline_stages == old(graph).pipeline_stages,
        lowers_to(
            *expr,
            lower_state_of(*old(graph), old(env)@),
            lower_state_of(*final(graph), final(env)@),
            r,
        ),
    decreases *expr,
{
    match expr {
        Expr::Const { value, width: _ } => {
            let v = graph.add_node_with_output(Operation::Const(*value as i64));
            proof {
                assert(graph.nodes@.subrange(0, old(graph).nodes@.len() as int) =~= old(
                    graph,
                ).nodes@);
                assert(value_node_append(
                    lower_state_of(*old(graph), old(env)@),
                    lower_state_of(*graph, env@),
                    Operation::Const(*value as i64),
                    v,
                ));
                assert(lowers_to(
                    *expr,
                    lower_state_of(*old(graph), old(env)@),
                    lower_state_of(*graph, env@),
                    v,
                ));
            }
            v
        },
        Expr::Input { name, width: _ } => {
            let m = env.len();
            for j in 0..m
                invariant
                    m == env@.len(),
                    graph.wf(),
                    env_wf(env@, *graph),
                    *graph == *old(graph),
                    *env == *old(env),
                    (*expr) matches Expr::Input { name: nm, width: _ } && nm@ == name@,
                    forall|k: int| 0 <= k < j ==> (#[trigger] env_views(env@)[k]).0 != name@,
            {
                proof {
                    assert(env_views(env@)[j as int] == (env@[j as int].0@, env@[j as int].1));
                }
                if env[j].0.eq(name) {
                    proof {
                        assert(graph.nodes@.subrange(0, old(graph).nodes@.len() as int) =~= old(
                            graph,
                        ).nodes@);
                        lemma_env_lookup_at(env_views(env@), name@, j as int);
                        assert(env_lookup(env_views(env@), name@) == Some(env@[j as int].1));
                        assert(lower_state_of(*graph, env@) == lower_state_of(
                            *old(graph),
                            old(env)@,
                        ));
                        assert(lowers_to(
                            *expr,
                            lower_state_of(*old(graph), old(env)@),
                            lower_state_of(*graph, env@),
                            env@[j as int].1,
                        ));
                    }
                    return env[j].1;
                }
            }
            proof {
                lemma_env_lookup_none(env_views(env@), name@);
            }
            let val_id = graph.add_node_with_output(Operation::Load(name.clone()));
            env.push((name.clone(), val_id));
            proof {
                assert(graph.nodes@.subrange(0, old(graph).nodes@.len() as int) =~= old(
                    graph,
                ).nodes@);
                assert(graph.nodes@.drop_last() =~= old(graph).nodes@);
                assert(env_views(env@) =~= env_views(old(env)@).push((name@, val_id)));
                assert(graph.nodes@.last().op matches Operation::Load(nm) && nm@ == name@);
                assert(lowers_to(
                    *expr,
                    lower_state_of(*old(graph), old(env)@),
                    lower_state_of(*graph, env@),
                    val_id,
                ));
            }
            val_id
        },
        Expr::Add(l, rr) => {
            let a = lower_expr(&**l, graph, env);
            let ghost st1 = lower_state_of(*graph, env@);
            let b = lower_expr(&**rr, graph, env);
            let ghost st2 = lower_state_of(*graph, env@);
            let v = graph.add_node_with_output(Operation::Add(a, b));
            proof {
                assert(graph.nodes@.subrange(0, old(graph).nodes@.len() as int) =~= old(
                    graph,
                ).nodes@);
                assert(*expr matches Expr::Add(bl, brr) && *bl == **l && *brr == **rr);
                assert(lowers_to(**l, lower_state_of(*old(graph), old(env)@), st1, a));
                assert(lowers_to(**rr, st1, st2, b));
                assert(mid_states(st1, st2, a, b));
                assert(lowers_to(
                    *expr,
                    lower_state_of(*old(graph), old(env)@),
                    lower_state_of(*graph, env@),
                    v,
                ));
            }
            v
        },
        Expr::Sub(l, rr) => {
            let a = lower_expr(&**l, graph, env);
            let ghost st1 = lower_state_of(*graph, env@);
            let b = lower_expr(&**rr, graph, env);
            let ghost st2 = lower_state_of(*graph, env@);
            let v = graph.add_node_with_output(Operation::Sub(a, b));
            proof {
                assert(graph.nodes@.subrange(0, old(graph).nodes@.len() as int) =~= old(
                    graph,
                ).nodes@);
                assert(*expr matches Expr::Sub(bl, brr) && *bl == **l && *brr == **rr);
                assert(lowers_to(**l, lower_state_of(*old(graph), old(env)@), st1, a));
                assert(lowers_to(**rr, st1, st2, b));
                assert(mid_states(st1, st2, a, b));
                assert(lowers_to(
                    *expr,
                    lower_state_of(*old(graph), old(env)@),
                    lower_state_of(*graph, env@),
                    v,
                ));
            }
            v
        },
        Expr::Mul(l, rr) => {
            let a = lower_expr(&**l, graph, env);
            let ghost st1 = lower_state_of(*graph, env@);
            let b = lower_expr(&**rr, graph, env);
            let ghost st2 = lower_state_of(*graph, env@);
            let v = graph.add_node_with_output(Operation::Mul(a, b));
            proof {
                assert(graph.nodes@.subrange(0, old(graph).nodes@.len() as int) =~= old(
                    graph,
                ).nodes@);
                assert(*expr matches Expr::Mul(bl, brr) && *bl == **l && *brr == **rr);
                assert(lowers_to(**l, lower_state_of(*old(graph), old(env)@), st1, a));
                assert(lowers_to(**rr, st1, st2, b));
                assert(mid_states(st1, st2, a, b));
                assert(lowers_to(
                    *expr,
                    lower_state_of(*old(graph), old(env)@),
                    lower_state_of(*graph, env@),
                    v,
                ));
            }
            v
        },
        Expr::Output { name, expr: inner } => {
            let val = lower_expr(&**inner, graph, env);
            let ghost st1 = lower_state_of(*graph, env@);
            let _node = graph.add_node(Operation::Store(name.clone(), val));
            proof {
                assert(graph.nodes@.subrange(0, old(graph).nodes@.len() as int) =~= old(
                    graph,
                ).nodes@);
                assert(graph.nodes@.drop_last() =~= st1.nodes);
                assert(graph.nodes@.last().op matches Operation::Store(nm, sv) && nm@ == name@
                    && sv == val);
                assert(*expr matches Expr::Output { name: nm2, expr: bi } && nm2@ == name@
                    && *bi == **inner);
                assert(lowers_to(**inner, lower_state_of(*old(graph), old(env)@), st1, val));
                assert(mid_state(st1));
                assert(lowers_to(
                    *expr,
                    lower_state_of(*old(graph), old(env)@),
                    lower_state_of(*graph, env@),
                    val,
                ));
            }
            val
        },
    }
}

} // verus!
