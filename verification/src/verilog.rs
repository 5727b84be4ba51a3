//! The RTL emitter: pattern analysis over the graph, module header with the
//! standard handshake ports, and pattern-directed emission of the pipelined
//! or simple module body. Every function's output is pinned, character for
//! character, to a specification function of the graph alone, so emission is
//! pure: the same graph gives the same text.

use vstd::prelude::*;
use crate::graph::{Graph, Node, Operation};
use crate::text::{dec_str, dec_str_spec};

verus! {

/// The computation shapes the emitter distinguishes.
#[derive(Debug, Clone, Copy, PartialEq, Eq, Structural)]
pub enum ComputationPattern {
    MAC,
    SimpleArithmetic,
    Complex,
}

/// What pattern analysis reads off the graph: the shape, its logical stage
/// count, a short description, and the input and output port names in node
/// order (`inputs` keeps one entry per `Load` node, duplicates included).
#[derive(Debug)]
pub struct ComputationAnalysis {
    pub pattern: ComputationPattern,
    pub logical_stages: usize,
    pub description: String,
    pub inputs: Vec<String>,
    pub outputs: Vec<String>,
}

/// Number of `Mul` nodes among the first `upto`.
pub open spec fn mul_count(nodes: Seq<Node>, upto: int) -> int
    decreases upto,
{
    if upto <= 0 {
        0
    } else {
        mul_count(nodes, upto - 1) + (if nodes[upto - 1].op is Mul {
            1int
        } else {
            0int
        })
    }
}

/// Number of `Add` nodes among the first `upto`.
pub open spec fn add_count(nodes: Seq<Node>, upto: int) -> int
    decreases upto,
{
    if upto <= 0 {
        0
    } else {
        add_count(nodes, upto - 1) + (if nodes[upto - 1].op is Add {
            1int
        } else {
            0int
        })
    }
}

/// The `Load` port names among the first `upto` nodes, in node order,
/// duplicates included.
pub open spec fn load_names(nodes: Seq<Node>, upto: int) -> Seq<Seq<char>>
    decreases upto,
{
    if upto <= 0 {
        Seq::empty()
    } else {
        load_names(nodes, upto - 1) + (match nodes[upto - 1].op {
            Operation::Load(name) => seq![name@],
            _ => Seq::empty(),
        })
    }
}

/// The `Store` port names among the first `upto` nodes, in node order,
/// duplicates included.
pub open spec fn store_names(nodes: Seq<Node>, upto: int) -> Seq<Seq<char>>
    decreases upto,
{
    if upto <= 0 {
        Seq::empty()
    } else {
        store_names(nodes, upto - 1) + (match nodes[upto - 1].op {
            Operation::Store(name, _) => seq![name@],
            _ => Seq::empty(),
        })
    }
}

/// The pattern classification: a multiply-accumulate tree, simple
/// arithmetic, or the complex fallback.
pub open spec fn spec_pattern(nodes: Seq<Node>) -> ComputationPattern {
    let m = mul_count(nodes, nodes.len() as int);
    let a = add_count(nodes, nodes.len() as int);
    if m >= 2 && a >= 2 {
        ComputationPattern::MAC
    } else if m <= 1 && a <= 2 {
        ComputationPattern::SimpleArithmetic
    } else {
        ComputationPattern::Complex
    }
}

/// The logical stage count of a pattern.
pub open spec fn spec_stages(p: ComputationPattern) -> int {
    match p {
        ComputationPattern::MAC => 5,
        ComputationPattern::SimpleArithmetic => 3,
        ComputationPattern::Complex => 4,
    }
}

/// The description word of a pattern.
pub open spec fn spec_description(p: ComputationPattern) -> Seq<char> {
    match p {
        ComputationPattern::MAC => "MAC"@,
        ComputationPattern::SimpleArithmetic => "arithmetic"@,
        ComputationPattern::Complex => "complex"@,
    }
}

/// The views of a list of strings.
pub open spec fn name_views(v: Seq<String>) -> Seq<Seq<char>> {
    v.map_values(|x: String| x@)
}

/// First occurrences only, in order.
pub open spec fn distinct_names(names: Seq<Seq<char>>) -> Seq<Seq<char>>
    decreases names.len(),
{
    if names.len() == 0 {
        Seq::empty()
    } else {
        let rest = distinct_names(names.drop_last());
        if rest.contains(names.last()) {
            rest
        } else {
            rest.push(names.last())
        }
    }
}

/// One text line per name of indices `[from, upto)`: `pre + name + suf`.
pub open spec fn lines1(
    names: Seq<Seq<char>>,
    upto: int,
    from: int,
    pre: Seq<char>,
    suf: Seq<char>,
) -> Seq<char>
    decreases upto - from,
{
    if upto <= from {
        Seq::empty()
    } else {
        lines1(names, upto - 1, from, pre, suf) + pre + names[upto - 1] + suf
    }
}

/// One text line per name of indices `[from, upto)`:
/// `pre + name + mid + name + suf`.
pub open spec fn lines2(
    names: Seq<Seq<char>>,
    upto: int,
    from: int,
    pre: Seq<char>,
    mid: Seq<char>,
    suf: Seq<char>,
) -> Seq<char>
    decreases upto - from,
{
    if upto <= from {
        Seq::empty()
    } else {
        lines2(names, upto - 1, from, pre, mid, suf) + pre + names[upto - 1] + mid + names[upto
            - 1] + suf
    }
}

/// Append `pre + name + suf` for each name from index `from` on.
fn emit_lines1(out: &mut String, names: &Vec<String>, from: usize, pre: &str, suf: &str)
    ensures
        final(out)@ == old(out)@ + lines1(
            name_views(names@),
            names@.len() as int,
            from as int,
            pre@,
            suf@,
        ),
{
    let n = names.len();
    let ghost nv = name_views(names@);
    if from >= n {
        proof {
            assert(out@ =~= old(out)@ + lines1(nv, n as int, from as int, pre@, suf@));
        }
        return ;
    }
    for idx in from..n
        invariant
            n == names@.len(),
            nv == name_views(names@),
            from <= idx <= n,
            out@ == old(out)@ + lines1(nv, idx as int, from as int, pre@, suf@),
    {
        out.append(pre);
        out.append(names[idx].as_str());
        out.append(suf);
        proof {
            assert(nv[idx as int] == names@[idx as int]@);
            assert(out@ =~= old(out)@ + lines1(nv, idx + 1, from as int, pre@, suf@));
        }
    }
}

/// Append `pre + name + mid + name + suf` for each name from `from` on.
fn emit_lines2(out: &mut String, names: &Vec<String>, from: usize, pre: &str, mid: &str, suf: &str)
    ensures
        final(out)@ == old(out)@ + lines2(
            name_views(names@),
            names@.len() as int,
            from as int,
            pre@,
            mid@,
            suf@,
        ),
{
    let n = names.len();
    let ghost nv = name_views(names@);
    if from >= n {
        proof {
            assert(out@ =~= old(out)@ + lines2(nv, n as int, from as int, pre@, mid@, suf@));
        }
        return ;
    }
    for idx in from..n
        invariant
            n == names@.len(),
            nv == name_views(names@),
            from <= idx <= n,
            out@ == old(out)@ + lines2(nv, idx as int, from as int, pre@, mid@, suf@),
    {
        out.append(pre);
        out.append(names[idx].as_str());
        out.append(mid);
        out.append(names[idx].as_str());
        out.append(suf);
        proof {
            assert(nv[idx as int] == names@[idx as int]@);
            assert(out@ =~= old(out)@ + lines2(nv, idx + 1, from as int, pre@, mid@, suf@));
        }
    }
}

/// Scan the graph for its computation pattern: count multiplies and adds
/// and collect the port names.
pub fn analyze_computation_pattern(graph: &Graph) -> (r: ComputationAnalysis)
    ensures
        r.pattern == spec_pattern(graph.nodes@),
        r.logical_stages as int == spec_stages(r.pattern),
        r.description@ == spec_description(r.pattern),
        name_views(r.inputs@) == load_names(graph.nodes@, graph.nodes@.len() as int),
        name_views(r.outputs@) == store_names(graph.nodes@, graph.nodes@.len() as int),
{
    let n = graph.nodes.len();
    let mut muls: usize = 0;
    let mut adds: usize = 0;
    let mut inputs: Vec<String> = Vec::new();
    let mut outputs: Vec<String> = Vec::new();
    for i in 0..n
        invariant
            n == graph.nodes@.len(),
            muls as int == mul_count(graph.nodes@, i as int),
            adds as int == add_count(graph.nodes@, i as int),
            muls <= i,
            adds <= i,
            name_views(inputs@) == load_names(graph.nodes@, i as int),
            name_views(outputs@) == store_names(graph.nodes@, i as int),
    {
        match &graph.nodes[i].op {
            Operation::Mul(_, _) => {
                muls = muls + 1;
            },
            Operation::Add(_, _) => {
                adds = adds + 1;
            },
            Operation::Load(name) => {
                inputs.push(name.clone());
            },
            Operation::Store(name, _) => {
                outputs.push(name.clone());
            },
            _ => {},
        }
        proof {
            assert(name_views(inputs@) =~= load_names(graph.nodes@, i + 1));
            assert(name_views(outputs@) =~= store_names(graph.nodes@, i + 1));
        }
    }
    let pattern = if muls >= 2 && adds >= 2 {
        ComputationPattern::MAC
    } else if muls <= 1 && adds <= 2 {
        ComputationPattern::SimpleArithmetic
    } else {
        ComputationPattern::Complex
    };
    let (logical_stages, description): (usize, &str) = match pattern {
        ComputationPattern::MAC => (5, "MAC"),
        ComputationPattern::SimpleArithmetic => (3, "arithmetic"),
        ComputationPattern::Complex => (4, "complex"),
    };
    ComputationAnalysis {
        pattern,
        logical_stages,
        description: String::from_str(description),
        inputs,
        outputs,
    }
}

/// The data-input port lines of the header.
pub open spec fn input_section_text(inputs: Seq<Seq<char>>) -> Seq<char> {
    if inputs.len() == 0 {
        Seq::empty()
    } else {
        "    \n    // Data inputs"@ + (if inputs.len() == 5 && inputs.contains("a"@)
            && inputs.contains("e"@) {
            " - MAC: result = (a * b) + (c * d) + e\n"@
        } else {
            "\n"@
        }) + lines1(inputs, inputs.len() as int, 0, "    input  wire [DATA_WIDTH-1:0]  "@, ",\n"@)
    }
}

/// The data-output port lines of the header: every line but the last ends
/// with a comma.
pub open spec fn output_section_text(outputs: Seq<Seq<char>>) -> Seq<char> {
    if outputs.len() == 0 {
        Seq::empty()
    } else {
        "    \n    // Data outputs\n"@ + lines1(
            outputs,
            outputs.len() - 1,
            0,
            "    output reg  [DATA_WIDTH-1:0]  "@,
            ",\n"@,
        ) + "    output reg  [DATA_WIDTH-1:0]  "@ + outputs.last() + "\n"@
    }
}

/// The module header: parameters, the handshake ports, and one data port
/// per distinct `Load` and `Store` name in insertion order.
pub open spec fn header_text(nodes: Seq<Node>, name: Seq<char>) -> Seq<char> {
    let inputs = distinct_names(load_names(nodes, nodes.len() as int));
    let outputs = distinct_names(store_names(nodes, nodes.len() as int));
    "module "@ + name + " #(\n"@ + "    parameter integer DATA_WIDTH = 32,\n"@
        + "    parameter integer ADDR_WIDTH = 16\n"@ + ") (\n"@ + "    // Clock and Reset\n"@
        + "    input  wire                    ap_clk,\n"@
        + "    input  wire                    ap_rst_n,\n"@ + "    \n"@
        + "    // Control signals (HLS-style)\n"@
        + "    input  wire                    ap_start,\n"@
        + "    output reg                     ap_done,\n"@
        + "    output wire                    ap_idle,\n"@
        + "    output wire                    ap_ready,\n"@ + input_section_text(inputs)
        + output_section_text(outputs) + ");\n\n"@
}

/// Keep the first occurrence of each name, in order.
fn dedup_names(names: &Vec<String>) -> (r: Vec<String>)
    ensures
        name_views(r@) == distinct_names(name_views(names@)),
{
    let n = names.len();
    let mut r: Vec<String> = Vec::new();
    for i in 0..n
        invariant
            n == names@.len(),
            name_views(r@) == distinct_names(name_views(names@).take(i as int)),
    {
        proof {
            assert(name_views(names@).take(i + 1).drop_last() =~= name_views(names@).take(i as int));
            assert(name_views(names@).take(i + 1).last() == names@[i as int]@);
        }
        let mut found = false;
        let m = r.len();
        for j in 0..m
            invariant
                m == r@.len(),
                n == names@.len(),
                name_views(r@) == distinct_names(name_views(names@).take(i as int)),
                i < n,
                found <==> exists|jj: int|
                    0 <= jj < j && #[trigger] r@[jj]@ == names@[i as int]@,
        {
            if r[j].eq(&names[i]) {
                found = true;
            }
        }
        proof {
            let dn = distinct_names(name_views(names@).take(i as int));
            if found {
                let jj = choose|jj: int| 0 <= jj < m && #[trigger] r@[jj]@ == names@[i as int]@;
                assert(name_views(r@)[jj] == names@[i as int]@);
                assert(dn.contains(names@[i as int]@));
            } else {
                if dn.contains(names@[i as int]@) {
                    let jj = choose|jj: int| 0 <= jj < dn.len() && dn[jj] == names@[i as int]@;
                    assert(r@[jj]@ == names@[i as int]@);
                    assert(false);
                }
            }
        }
        if !found {
            r.push(names[i].clone());
            proof {
                assert(name_views(r@) =~= distinct_names(name_views(names@).take(i + 1)));
            }
        } else {
            proof {
                assert(name_views(r@) =~= distinct_names(name_views(names@).take(i + 1)));
            }
        }
    }
    proof {
        assert(name_views(names@).take(n as int) =~= name_views(names@));
    }
    r
}

/// Whether a list of strings holds one with this view.
fn contains_name(names: &Vec<String>, target: &str) -> (r: bool)
    ensures
        r == name_views(names@).contains(target@),
{
    let t = String::from_str(target);
    let n = names.len();
    for i in 0..n
        invariant
            t@ == target@,
            n == names@.len(),
            forall|j: int| 0 <= j < i ==> #[trigger] names@[j]@ != target@,
    {
        if names[i].eq(&t) {
            proof {
                assert(name_views(names@)[i as int] == target@);
            }
            return true;
        }
    }
    proof {
        if name_views(names@).contains(target@) {
            let j = choose|j: int|
                0 <= j < names@.len() && #[trigger] name_views(names@)[j] == target@;
            assert(names@[j]@ == target@);
            assert(false);
        }
    }
    false
}

/// Emit the module header, as `header_text` states it.
pub fn generate_module_header(graph: &Graph, module_name: &str) -> (r: String)
    ensures
        r@ == header_text(graph.nodes@, module_name@),
{
    let analysis = analyze_computation_pattern(graph);
    let inputs = dedup_names(&analysis.inputs);
    let outputs = dedup_names(&analysis.outputs);
    let mut out = String::new();
    out.append("module ");
    out.append(module_name);
    out.append(" #(\n");
    out.append("    parameter integer DATA_WIDTH = 32,\n");
    out.append("    parameter integer ADDR_WIDTH = 16\n");
    out.append(") (\n");
    out.append("    // Clock and Reset\n");
    out.append("    input  wire                    ap_clk,\n");
    out.append("    input  wire                    ap_rst_n,\n");
    out.append("    \n");
    out.append("    // Control signals (HLS-style)\n");
    out.append("    input  wire                    ap_start,\n");
    out.append("    output reg                     ap_done,\n");
    out.append("    output wire                    ap_idle,\n");
    out.append("    output wire                    ap_ready,\n");
    let ghost mark = out@;
    if inputs.len() > 0 {
        out.append("    \n    // Data inputs");
        if inputs.len() == 5 && contains_name(&inputs, "a") && contains_name(&inputs, "e") {
            out.append(" - MAC: result = (a * b) + (c * d) + e\n");
        } else {
            out.append("\n");
        }
        emit_lines1(&mut out, &inputs, 0, "    input  wire [DATA_WIDTH-1:0]  ", ",\n");
        proof {
            assert(out@ =~= mark + input_section_text(name_views(inputs@)));
        }
    }
    let ghost mark2 = out@;
    if outputs.len() > 0 {
        out.append("    \n    // Data outputs\n");
        let last = outputs.len() - 1;
        let ghost mark3 = out@;
        for i in 0..last
            invariant
                last == outputs@.len() - 1,
                out@ == mark3 + lines1(
                    name_views(outputs@),
                    i as int,
                    0,
                    "    output reg  [DATA_WIDTH-1:0]  "@,
                    ",\n"@,
                ),
        {
            out.append("    output reg  [DATA_WIDTH-1:0]  ");
            out.append(outputs[i].as_str());
            out.append(",\n");
            proof {
                assert(name_views(outputs@)[i as int] == outputs@[i as int]@);
                assert(out@ =~= mark3 + lines1(
                    name_views(outputs@),
                    i + 1,
                    0,
                    "    output reg  [DATA_WIDTH-1:0]  "@,
                    ",\n"@,
                ));
            }
        }
        out.append("    output reg  [DATA_WIDTH-1:0]  ");
        out.append(outputs[last].as_str());
        out.append("\n");
        proof {
            assert(name_views(outputs@).last() == outputs@[last as int]@);
            assert(out@ =~= mark2 + output_section_text(name_views(outputs@)));
        }
    }
    out.append(");\n\n");
    proof {
        assert(out@ =~= header_text(graph.nodes@, module_name@));
    }
    out
}

/// `"0"` repeated `n` times.
pub open spec fn zeros_text(n: int) -> Seq<char>
    decreases n,
{
    if n <= 0 {
        Seq::empty()
    } else {
        zeros_text(n - 1) + "0"@
    }
}

/// The reset arm of the control block.
#[verifier::opaque]
pub open spec fn control_reset_text(stages: int) -> Seq<char> {
    "    // Pipeline control logic\n"@ + "    always @(posedge ap_clk) begin\n"@
        + "        if (!ap_rst_n) begin\n"@ + "            pipeline_valid <= "@ + dec_str_spec(
        stages,
    ) + "'b"@ + zeros_text(stages) + ";\n"@ + "            pipeline_counter <= 4'b0000;\n"@
        + "            ap_done <= 1'b0;\n"@
}

/// The shift and counter-increment arm of the control block.
#[verifier::opaque]
pub open spec fn control_shift_text(stages: int) -> Seq<char> {
    "        end else begin\n"@ + "            // Shift pipeline valid bits\n"@
        + "            pipeline_valid <= {pipeline_valid["@ + dec_str_spec(stages - 2)
        + ":0], ap_start && ap_ready};\n"@ + "            \n"@ + "            // Update counter\n"@
        + "            if (ap_start && ap_ready) begin\n"@
        + "                if (pipeline_counter < "@ + dec_str_spec(stages) + ") begin\n"@
        + "                    pipeline_counter <= pipeline_counter + 1;\n"@
        + "                end\n"@
}

/// The retire and done arm of the control block.
#[verifier::opaque]
pub open spec fn control_done_text(stages: int) -> Seq<char> {
    "            end else if (pipeline_counter > 0 && pipeline_valid["@ + dec_str_spec(stages - 1)
        + "]) begin\n"@ + "                pipeline_counter <= pipeline_counter - 1;\n"@
        + "            end\n"@ + "            \n"@
        + "            // Output done signal when result emerges from pipeline\n"@
        + "            ap_done <= pipeline_valid["@ + dec_str_spec(stages - 1) + "];\n"@
        + "        end\n"@ + "    end\n"@ + "    \n"@
}

/// The pipeline control block: reset, the valid shift register fed by
/// `ap_start && ap_ready`, the in-flight counter, and the registered
/// `ap_done` taken from the top valid bit.
pub open spec fn control_text(stages: int) -> Seq<char> {
    control_reset_text(stages) + control_shift_text(stages) + control_done_text(stages)
}

/// Emit the control block for a pipeline of `stages` stages.
#[verifier::rlimit(100)]
pub fn generate_pipeline_control(verilog: &mut String, stages: usize)
    requires
        stages >= 2,
    ensures
        final(verilog)@ == old(verilog)@ + control_text(stages as int),
{
    verilog.append("    // Pipeline control logic\n");
    verilog.append("    always @(posedge ap_clk) begin\n");
    verilog.append("        if (!ap_rst_n) begin\n");
    verilog.append("            pipeline_valid <= ");
    verilog.append(dec_str(stages).as_str());
    verilog.append("'b");
    let ghost mark = verilog@;
    for z in 0..stages
        invariant
            verilog@ == mark + zeros_text(z as int),
    {
        verilog.append("0");
        proof {
            assert(verilog@ =~= mark + zeros_text(z + 1));
        }
    }
    verilog.append(";\n");
    verilog.append("            pipeline_counter <= 4'b0000;\n");
    verilog.append("            ap_done <= 1'b0;\n");
    proof {
        reveal(control_reset_text);
        assert(verilog@ =~= old(verilog)@ + control_reset_text(stages as int));
    }
    let ghost m1 = verilog@;
    verilog.append("        end else begin\n");
    verilog.append("            // Shift pipeline valid bits\n");
    verilog.append("            pipeline_valid <= {pipeline_valid[");
    verilog.append(dec_str(stages - 2).as_str());
    verilog.append(":0], ap_start && ap_ready};\n");
    verilog.append("            \n");
    verilog.append("            // Update counter\n");
    verilog.append("            if (ap_start && ap_ready) begin\n");
    verilog.append("                if (pipeline_counter < ");
    verilog.append(dec_str(stages).as_str());
    verilog.append(") begin\n");
    verilog.append("                    pipeline_counter <= pipeline_counter + 1;\n");
    verilog.append("                end\n");
    proof {
        reveal(control_shift_text);
        assert(verilog@ =~= m1 + control_shift_text(stages as int));
    }
    let ghost m2 = verilog@;
    verilog.append("            end else if (pipeline_counter > 0 && pipeline_valid[");
    verilog.append(dec_str(stages - 1).as_str());
    verilog.append("]) begin\n");
    verilog.append("                pipeline_counter <= pipeline_counter - 1;\n");
    verilog.append("            end\n");
    verilog.append("            \n");
    verilog.append("            // Output done signal when result emerges from pipeline\n");
    verilog.append("            ap_done <= pipeline_valid[");
    verilog.append(dec_str(stages - 1).as_str());
    verilog.append("];\n");
    verilog.append("        end\n");
    verilog.append("    end\n");
    verilog.append("    \n");
    proof {
        reveal(control_done_text);
        assert(verilog@ =~= m2 + control_done_text(stages as int));
        assert(verilog@ =~= old(verilog)@ + control_text(stages as int));
    }
}

/// Stage 0 of the MAC pipeline: input registration.
#[verifier::opaque]
pub open spec fn mac_stage0_text(inputs: Seq<Seq<char>>) -> Seq<char> {
    "    // Pipeline Stage 0: Input Registration\n"@ + "    always @(posedge ap_clk) begin\n"@
        + "        if (!ap_rst_n) begin\n"@ + lines1(
        inputs,
        inputs.len() as int,
        0,
        "            "@,
        "_reg0 <= {DATA_WIDTH{1'b0}};\n"@,
    ) + "        end else if (pipeline_valid[0]) begin\n"@ + lines2(
        inputs,
        inputs.len() as int,
        0,
        "            "@,
        "_reg0 <= "@,
        ";\n"@,
    ) + "        end\n"@ + "    end\n"@ + "    \n"@
}

/// Emit MAC stage 0.
pub fn generate_mac_stage_0(verilog: &mut String, inputs: &Vec<String>)
    ensures
        final(verilog)@ == old(verilog)@ + mac_stage0_text(name_views(inputs@)),
{
    verilog.append("    // Pipeline Stage 0: Input Registration\n");
    verilog.append("    always @(posedge ap_clk) begin\n");
    verilog.append("        if (!ap_rst_n) begin\n");
    emit_lines1(verilog, inputs, 0, "            ", "_reg0 <= {DATA_WIDTH{1'b0}};\n");
    verilog.append("        end else if (pipeline_valid[0]) begin\n");
    emit_lines2(verilog, inputs, 0, "            ", "_reg0 <= ", ";\n");
    verilog.append("        end\n");
    verilog.append("    end\n");
    verilog.append("    \n");
    proof {
        reveal(mac_stage0_text);
        assert(verilog@ =~= old(verilog)@ + mac_stage0_text(name_views(inputs@)));
    }
}

/// The reset arm of MAC stage 1.
#[verifier::opaque]
pub open spec fn mac_stage1_reset_text(inputs: Seq<Seq<char>>) -> Seq<char> {
    "    // Pipeline Stage 1: Parallel Multiplications (DSP48E2 optimized for AU50)\n"@
        + "    always @(posedge ap_clk) begin\n"@ + "        if (!ap_rst_n) begin\n"@
        + "            mult_ab_reg1 <= {DATA_WIDTH{1'b0}};\n"@
        + "            mult_cd_reg1 <= {DATA_WIDTH{1'b0}};\n"@ + lines1(
        inputs,
        inputs.len() as int,
        4,
        "            "@,
        "_reg1 <= {DATA_WIDTH{1'b0}};\n"@,
    )
}

/// The compute arm of MAC stage 1: the two products over the first four
/// input ports, the rest passed through.
#[verifier::opaque]
pub open spec fn mac_stage1_compute_text(inputs: Seq<Seq<char>>) -> Seq<char> {
    "        end else if (pipeline_valid[1]) begin\n"@
        + "            // Force DSP48E2 usage for AU50 optimization\n"@
        + "            (* USE_DSP = \"yes\", DSP_A_INPUT = \"DIRECT\", DSP_B_INPUT = \"DIRECT\" *) \n"@
        + "            mult_ab_reg1 <= "@ + inputs[0] + "_reg0 * "@ + inputs[1] + "_reg0;\n"@
        + "            (* USE_DSP = \"yes\", DSP_A_INPUT = \"DIRECT\", DSP_B_INPUT = \"DIRECT\" *) \n"@
        + "            mult_cd_reg1 <= "@ + inputs[2] + "_reg0 * "@ + inputs[3] + "_reg0;\n"@
        + lines2(
        inputs,
        inputs.len() as int,
        4,
        "            "@,
        "_reg1 <= "@,
        "_reg0;  // Pass through\n"@,
    ) + "        end\n"@ + "    end\n"@ + "    \n"@
}

/// Stage 1 of the MAC pipeline: the two parallel multiplications over the
/// first four input ports, with pass-through registers for the rest.
pub open spec fn mac_stage1_text(inputs: Seq<Seq<char>>) -> Seq<char> {
    mac_stage1_reset_text(inputs) + mac_stage1_compute_text(inputs)
}

/// Emit MAC stage 1.
pub fn generate_mac_stage_1(verilog: &mut String, inputs: &Vec<String>)
    requires
        inputs@.len() >= 4,
    ensures
        final(verilog)@ == old(verilog)@ + mac_stage1_text(name_views(inputs@)),
{
    verilog.append(
        "    // Pipeline Stage 1: Parallel Multiplications (DSP48E2 optimized for AU50)\n",
    );
    verilog.append("    always @(posedge ap_clk) begin\n");
    verilog.append("        if (!ap_rst_n) begin\n");
    verilog.append("            mult_ab_reg1 <= {DATA_WIDTH{1'b0}};\n");
    verilog.append("            mult_cd_reg1 <= {DATA_WIDTH{1'b0}};\n");
    emit_lines1(verilog, inputs, 4, "            ", "_reg1 <= {DATA_WIDTH{1'b0}};\n");
    proof {
        reveal(mac_stage1_reset_text);
        assert(verilog@ =~= old(verilog)@ + mac_stage1_reset_text(name_views(inputs@)));
    }
    let ghost m1 = verilog@;
    verilog.append("        end else if (pipeline_valid[1]) begin\n");
    verilog.append("            // Force DSP48E2 usage for AU50 optimization\n");
    verilog.append(
        "            (* USE_DSP = \"yes\", DSP_A_INPUT = \"DIRECT\", DSP_B_INPUT = \"DIRECT\" *) \n",
    );
    verilog.append("            mult_ab_reg1 <= ");
    verilog.append(inputs[0].as_str());
    verilog.append("_reg0 * ");
    verilog.append(inputs[1].as_str());
    verilog.append("_reg0;\n");
    verilog.append(
        "            (* USE_DSP = \"yes\", DSP_A_INPUT = \"DIRECT\", DSP_B_INPUT = \"DIRECT\" *) \n",
    );
    verilog.append("            mult_cd_reg1 <= ");
    verilog.append(inputs[2].as_str());
    verilog.append("_reg0 * ");
    verilog.append(inputs[3].as_str());
    verilog.append("_reg0;\n");
    emit_lines2(verilog, inputs, 4, "            ", "_reg1 <= ", "_reg0;  // Pass through\n");
    verilog.append("        end\n");
    verilog.append("    end\n");
    verilog.append("    \n");
    proof {
        reveal(mac_stage1_compute_text);
        assert(name_views(inputs@)[0] == inputs@[0]@);
        assert(name_views(inputs@)[1] == inputs@[1]@);
        assert(name_views(inputs@)[2] == inputs@[2]@);
        assert(name_views(inputs@)[3] == inputs@[3]@);
        assert(verilog@ =~= m1 + mac_stage1_compute_text(name_views(inputs@)));
        assert(verilog@ =~= old(verilog)@ + mac_stage1_text(name_views(inputs@)));
    }
}

/// Stage 2 of the MAC pipeline: the first addition.
#[verifier::opaque]
pub open spec fn mac_stage2_text(inputs: Seq<Seq<char>>) -> Seq<char> {
    "    // Pipeline Stage 2: First Addition (mult_ab + mult_cd)\n"@
        + "    always @(posedge ap_clk) begin\n"@ + "        if (!ap_rst_n) begin\n"@
        + "            add_mult_reg2 <= {DATA_WIDTH{1'b0}};\n"@ + lines1(
        inputs,
        inputs.len() as int,
        4,
        "            "@,
        "_reg2 <= {DATA_WIDTH{1'b0}};\n"@,
    ) + "        end else if (pipeline_valid[2]) begin\n"@
        + "            add_mult_reg2 <= mult_ab_reg1 + mult_cd_reg1;\n"@ + lines2(
        inputs,
        inputs.len() as int,
        4,
        "            "@,
        "_reg2 <= "@,
        "_reg1;  // Pass through\n"@,
    ) + "        end\n"@ + "    end\n"@ + "    \n"@
}

/// Emit MAC stage 2.
pub fn generate_mac_stage_2(verilog: &mut String, inputs: &Vec<String>)
    ensures
        final(verilog)@ == old(verilog)@ + mac_stage2_text(name_views(inputs@)),
{
    verilog.append("    // Pipeline Stage 2: First Addition (mult_ab + mult_cd)\n");
    verilog.append("    always @(posedge ap_clk) begin\n");
    verilog.append("        if (!ap_rst_n) begin\n");
    verilog.append("            add_mult_reg2 <= {DATA_WIDTH{1'b0}};\n");
    emit_lines1(verilog, inputs, 4, "            ", "_reg2 <= {DATA_WIDTH{1'b0}};\n");
    verilog.append("        end else if (pipeline_valid[2]) begin\n");
    verilog.append("            add_mult_reg2 <= mult_ab_reg1 + mult_cd_reg1;\n");
    emit_lines2(verilog, inputs, 4, "            ", "_reg2 <= ", "_reg1;  // Pass through\n");
    verilog.append("        end\n");
    verilog.append("    end\n");
    verilog.append("    \n");
    proof {
        reveal(mac_stage2_text);
        assert(verilog@ =~= old(verilog)@ + mac_stage2_text(name_views(inputs@)));
    }
}

/// Stage 3 of the MAC pipeline: the final accumulation.
#[verifier::opaque]
pub open spec fn mac_stage3_text() -> Seq<char> {
    "    // Pipeline Stage 3: Final Addition (result = (a*b + c*d) + e)\n"@
        + "    always @(posedge ap_clk) begin\n"@ + "        if (!ap_rst_n) begin\n"@
        + "            result_reg3 <= {DATA_WIDTH{1'b0}};\n"@
        + "        end else if (pipeline_valid[3]) begin\n"@
        + "            result_reg3 <= add_mult_reg2 + e_reg2;\n"@ + "        end\n"@
        + "    end\n"@ + "    \n"@
}

/// Emit MAC stage 3.
pub fn generate_mac_stage_3(verilog: &mut String)
    ensures
        final(verilog)@ == old(verilog)@ + mac_stage3_text(),
{
    verilog.append("    // Pipeline Stage 3: Final Addition (result = (a*b + c*d) + e)\n");
    verilog.append("    always @(posedge ap_clk) begin\n");
    verilog.append("        if (!ap_rst_n) begin\n");
    verilog.append("            result_reg3 <= {DATA_WIDTH{1'b0}};\n");
    verilog.append("        end else if (pipeline_valid[3]) begin\n");
    verilog.append("            result_reg3 <= add_mult_reg2 + e_reg2;\n");
    verilog.append("        end\n");
    verilog.append("    end\n");
    verilog.append("    \n");
    proof {
        reveal(mac_stage3_text);
        assert(verilog@ =~= old(verilog)@ + mac_stage3_text());
    }
}

/// Stage 4 of the MAC pipeline: the output latch.
#[verifier::opaque]
pub open spec fn mac_stage4_text(outputs: Seq<Seq<char>>) -> Seq<char> {
    "    // Pipeline Stage 4: Output Assignment\n"@ + "    always @(posedge ap_clk) begin\n"@
        + "        if (!ap_rst_n) begin\n"@ + lines1(
        outputs,
        outputs.len() as int,
        0,
        "            "@,
        " <= {DATA_WIDTH{1'b0}};\n"@,
    ) + "        end else if (pipeline_valid[4]) begin\n"@ + lines1(
        outputs,
        outputs.len() as int,
        0,
        "            "@,
        " <= result_reg3;\n"@,
    ) + "        end\n"@ + "    end\n"@
}

/// Emit MAC stage 4.
pub fn generate_mac_stage_4(verilog: &mut String, outputs: &Vec<String>)
    ensures
        final(verilog)@ == old(verilog)@ + mac_stage4_text(name_views(outputs@)),
{
    verilog.append("    // Pipeline Stage 4: Output Assignment\n");
    verilog.append("    always @(posedge ap_clk) begin\n");
    verilog.append("        if (!ap_rst_n) begin\n");
    emit_lines1(verilog, outputs, 0, "            ", " <= {DATA_WIDTH{1'b0}};\n");
    verilog.append("        end else if (pipeline_valid[4]) begin\n");
    emit_lines1(verilog, outputs, 0, "            ", " <= result_reg3;\n");
    verilog.append("        end\n");
    verilog.append("    end\n");
    proof {
        reveal(mac_stage4_text);
        assert(verilog@ =~= old(verilog)@ + mac_stage4_text(name_views(outputs@)));
    }
}

/// The declaration block of the MAC pipeline body.
#[verifier::opaque]
pub open spec fn mac_decls_text(inputs: Seq<Seq<char>>) -> Seq<char> {
    "    // Pipeline control signals\n"@ + "    reg [4:0] pipeline_valid;  // 5-stage pipeline\n"@
        + "    reg [3:0] pipeline_counter;\n"@ + "    \n"@
        + "    // Pipeline registers for Stage 0 (Input Registration)\n"@ + lines1(
        inputs,
        inputs.len() as int,
        0,
        "    reg [DATA_WIDTH-1:0] "@,
        "_reg0;\n"@,
    ) + "    \n"@ + "    // Pipeline registers for Stage 1 (Multiplication)\n"@
        + "    reg [DATA_WIDTH-1:0] mult_ab_reg1, mult_cd_reg1;\n"@ + lines1(
        inputs,
        inputs.len() as int,
        4,
        "    reg [DATA_WIDTH-1:0] "@,
        "_reg1;\n"@,
    ) + "    \n"@ + "    // Pipeline registers for Stage 2 (First Addition)\n"@
        + "    reg [DATA_WIDTH-1:0] add_mult_reg2;\n"@ + lines1(
        inputs,
        inputs.len() as int,
        4,
        "    reg [DATA_WIDTH-1:0] "@,
        "_reg2;\n"@,
    ) + "    \n"@ + "    // Pipeline registers for Stage 3 (Final Addition)\n"@
        + "    reg [DATA_WIDTH-1:0] result_reg3;\n"@ + "    \n"@ + "    // Control logic\n"@
        + "    assign ap_idle = (pipeline_counter == 0);\n"@
        + "    assign ap_ready = (pipeline_counter < 5);  // Can accept new input when not full\n"@
        + "    \n"@
}

/// The whole MAC pipeline body: declarations, control and the five stages.
pub open spec fn mac_pipeline_text(inputs: Seq<Seq<char>>, outputs: Seq<Seq<char>>) -> Seq<char> {
    mac_decls_text(inputs) + control_text(5) + mac_stage0_text(inputs) + mac_stage1_text(inputs)
        + mac_stage2_text(inputs) + mac_stage3_text() + mac_stage4_text(outputs)
}

/// Emit the MAC pipeline body.
#[verifier::rlimit(100)]
pub fn generate_mac_pipeline(verilog: &mut String, analysis: &ComputationAnalysis)
    requires
        analysis.inputs@.len() >= 4,
    ensures
        final(verilog)@ == old(verilog)@ + mac_pipeline_text(
            name_views(analysis.inputs@),
            name_views(analysis.outputs@),
        ),
{
    verilog.append("    // Pipeline control signals\n");
    verilog.append("    reg [4:0] pipeline_valid;  // 5-stage pipeline\n");
    verilog.append("    reg [3:0] pipeline_counter;\n");
    verilog.append("    \n");
    verilog.append("    // Pipeline registers for Stage 0 (Input Registration)\n");
    emit_lines1(verilog, &analysis.inputs, 0, "    reg [DATA_WIDTH-1:0] ", "_reg0;\n");
    verilog.append("    \n");
    verilog.append("    // Pipeline registers for Stage 1 (Multiplication)\n");
    verilog.append("    reg [DATA_WIDTH-1:0] mult_ab_reg1, mult_cd_reg1;\n");
    emit_lines1(verilog, &analysis.inputs, 4, "    reg [DATA_WIDTH-1:0] ", "_reg1;\n");
    verilog.append("    \n");
    verilog.append("    // Pipeline registers for Stage 2 (First Addition)\n");
    verilog.append("    reg [DATA_WIDTH-1:0] add_mult_reg2;\n");
    emit_lines1(verilog, &analysis.inputs, 4, "    reg [DATA_WIDTH-1:0] ", "_reg2;\n");
    verilog.append("    \n");
    verilog.append("    // Pipeline registers for Stage 3 (Final Addition)\n");
    verilog.append("    reg [DATA_WIDTH-1:0] result_reg3;\n");
    verilog.append("    \n");
    verilog.append("    // Control logic\n");
    verilog.append("    assign ap_idle = (pipeline_counter == 0);\n");
    verilog.append(
        "    assign ap_ready = (pipeline_counter < 5);  // Can accept new input when not full\n",
    );
    verilog.append("    \n");
    proof {
        reveal(mac_decls_text);
        assert(verilog@ =~= old(verilog)@ + mac_decls_text(name_views(analysis.inputs@)));
    }
    generate_pipeline_control(verilog, 5);
    generate_mac_stage_0(verilog, &analysis.inputs);
    generate_mac_stage_1(verilog, &analysis.inputs);
    generate_mac_stage_2(verilog, &analysis.inputs);
    generate_mac_stage_3(verilog);
    generate_mac_stage_4(verilog, &analysis.outputs);
    proof {
        assert(verilog@ =~= old(verilog)@ + mac_pipeline_text(
            name_views(analysis.inputs@),
            name_views(analysis.outputs@),
        ));
    }
}

/// The short body of the simple-arithmetic pattern.
pub open spec fn arithmetic_pipeline_text() -> Seq<char> {
    "    // Simple arithmetic pipeline\n"@ + "    reg [2:0] pipeline_valid;\n"@
        + "    reg [2:0] pipeline_counter;\n"@
}

/// Emit the simple-arithmetic body (a three-stage variant).
pub fn generate_arithmetic_pipeline(verilog: &mut String, _analysis: &ComputationAnalysis)
    ensures
        final(verilog)@ == old(verilog)@ + arithmetic_pipeline_text(),
{
    verilog.append("    // Simple arithmetic pipeline\n");
    verilog.append("    reg [2:0] pipeline_valid;\n");
    verilog.append("    reg [2:0] pipeline_counter;\n");
    proof {
        assert(verilog@ =~= old(verilog)@ + arithmetic_pipeline_text());
    }
}

/// The generic fallback body.
pub open spec fn generic_pipeline_text() -> Seq<char> {
    "    // Generic complex pipeline\n"@
}

/// Emit the generic fallback body.
pub fn generate_generic_pipeline(verilog: &mut String, _graph: &Graph)
    ensures
        final(verilog)@ == old(verilog)@ + generic_pipeline_text(),
{
    verilog.append("    // Generic complex pipeline\n");
}

/// The pipelined module: banner, header and the pattern-directed body. The
/// MAC body asks for at least four input ports; a MAC-shaped graph with
/// fewer falls back to the generic body.
pub open spec fn pipelined_module_text(nodes: Seq<Node>, name: Seq<char>) -> Seq<char> {
    let p = spec_pattern(nodes);
    let loads = load_names(nodes, nodes.len() as int);
    let stores = store_names(nodes, nodes.len() as int);
    "// Generated for AMD Alveo U50 - PIPELINED VERSION (CLEAN)\n"@ + "// Pipeline: "@
        + dec_str_spec(spec_stages(p)) + "-stage "@ + spec_description(p) + " implementation\n"@
        + "// synthesis translate_off\n"@ + "`timescale 1ns / 1ps\n"@
        + "// synthesis translate_on\n\n"@ + header_text(nodes, name) + (if p
        == ComputationPattern::MAC && loads.len() >= 4 {
        mac_pipeline_text(loads, stores)
    } else if p == ComputationPattern::SimpleArithmetic {
        arithmetic_pipeline_text()
    } else {
        generic_pipeline_text()
    }) + "\nendmodule\n"@
}

/// Emit the pipelined module.
pub fn generate_clean_pipelined_module(graph: &Graph, module_name: &str) -> (r: String)
    ensures
        r@ == pipelined_module_text(graph.nodes@, module_name@),
{
    let mut verilog = String::new();
    let analysis = analyze_computation_pattern(graph);
    verilog.append("// Generated for AMD Alveo U50 - PIPELINED VERSION (CLEAN)\n");
    verilog.append("// Pipeline: ");
    verilog.append(dec_str(analysis.logical_stages).as_str());
    verilog.append("-stage ");
    verilog.append(analysis.description.as_str());
    verilog.append(" implementation\n");
    verilog.append("// synthesis translate_off\n");
    verilog.append("`timescale 1ns / 1ps\n");
    verilog.append("// synthesis translate_on\n\n");
    let header = generate_module_header(graph, module_name);
    verilog.append(header.as_str());
    let is_mac = analysis.pattern == ComputationPattern::MAC;
    let is_simple = analysis.pattern == ComputationPattern::SimpleArithmetic;
    if is_mac && analysis.inputs.len() >= 4 {
        generate_mac_pipeline(&mut verilog, &analysis);
    } else if is_simple {
        generate_arithmetic_pipeline(&mut verilog, &analysis);
    } else {
        generate_generic_pipeline(&mut verilog, graph);
    }
    verilog.append("\nendmodule\n");
    proof {
        assert(verilog@ =~= pipelined_module_text(graph.nodes@, module_name@));
    }
    verilog
}

/// The simple (non-pipelined) module: banner, header, and a stub control
/// state machine.
pub open spec fn simple_module_text(nodes: Seq<Node>, name: Seq<char>) -> Seq<char> {
    "// Generated for AMD Alveo U50 - SIMPLE VERSION\n"@ + "// synthesis translate_off\n"@
        + "`timescale 1ns / 1ps\n"@ + "// synthesis translate_on\n\n"@ + header_text(nodes, name)
        + "    // Simple control state machine\n"@
        + "    (* DONT_TOUCH = \"yes\" *) reg [1:0] state;\n"@
        + "    localparam IDLE = 2'b00, COMPUTE = 2'b01, DONE = 2'b10;\n"@ + "    \n"@
        + "    assign ap_idle = (state == IDLE);\n"@ + "    assign ap_ready = (state == IDLE);\n"@
        + "\nendmodule\n"@
}

/// Emit the simple module.
pub fn generate_simple_module(graph: &Graph, module_name: &str) -> (r: String)
    ensures
        r@ == simple_module_text(graph.nodes@, module_name@),
{
    let mut verilog = String::new();
    verilog.append("// Generated for AMD Alveo U50 - SIMPLE VERSION\n");
    verilog.append("// synthesis translate_off\n");
    verilog.append("`timescale 1ns / 1ps\n");
    verilog.append("// synthesis translate_on\n\n");
    let header = generate_module_header(graph, module_name);
    verilog.append(header.as_str());
    verilog.append("    // Simple control state machine\n");
    verilog.append("    (* DONT_TOUCH = \"yes\" *) reg [1:0] state;\n");
    verilog.append("    localparam IDLE = 2'b00, COMPUTE = 2'b01, DONE = 2'b10;\n");
    verilog.append("    \n");
    verilog.append("    assign ap_idle = (state == IDLE);\n");
    verilog.append("    assign ap_ready = (state == IDLE);\n");
    verilog.append("\nendmodule\n");
    proof {
        assert(verilog@ =~= simple_module_text(graph.nodes@, module_name@));
    }
    verilog
}

/// The emitted module text: the pipelined form when pipelining is enabled
/// and stages have been scheduled, the simple form otherwise.
pub open spec fn module_text(
    nodes: Seq<Node>,
    pipelined: bool,
    n_stages: int,
    name: Seq<char>,
) -> Seq<char> {
    if pipelined && n_stages > 0 {
        pipelined_module_text(nodes, name)
    } else {
        simple_module_text(nodes, name)
    }
}

/// Emit the RTL module for a graph. The result is pinned to `module_text`,
/// a function of the graph and the name alone.
pub fn generate_verilog_module(graph: &Graph, module_name: &str) -> (r: String)
    ensures
        r@ == module_text(
            graph.nodes@,
            graph.pipeline_config.enable,
            graph.pipeline_stages@.len() as int,
            module_name@,
        ),
{
    if graph.pipeline_config.enable && graph.pipeline_stages.len() > 0 {
        generate_clean_pipelined_module(graph, module_name)
    } else {
        generate_simple_module(graph, module_name)
    }
}

/// Emission is pure: the emitted text is a function of the graph's nodes,
/// its pipeline configuration and stage count, and the module name, and of
/// nothing else, so the same graph always yields byte-identical text.
pub proof fn lemma_generate_module_pure(
    nodes1: Seq<Node>,
    pipelined1: bool,
    n_stages1: int,
    name1: Seq<char>,
    nodes2: Seq<Node>,
    pipelined2: bool,
    n_stages2: int,
    name2: Seq<char>,
)
    requires
        nodes1 == nodes2,
        pipelined1 == pipelined2,
        n_stages1 == n_stages2,
        name1 == name2,
    ensures
        module_text(nodes1, pipelined1, n_stages1, name1) == module_text(
            nodes2,
            pipelined2,
            n_stages2,
            name2,
        ),
{
}

} // verus!
