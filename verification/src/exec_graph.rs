use vstd::prelude::*;

verus! {

use crate::exec_flow::{ActV, ExecutionFlow, ExecutionStep, StepV};
use crate::strings::{
    dec_str, escape_one, map_chars, sanitize_one, usize_to_string, sanitize_name, escape_label,
};

/// What the per-step renderer shows.
#[derive(Clone, Copy)]
pub struct ExecutionGraphConfig {
    pub show_line_numbers: bool,
    pub show_call_stack: bool,
    pub show_object_states: bool,
    pub show_parameters: bool,
    pub max_steps_per_graph: Option<usize>,
    pub highlight_current_step: bool,
}

/// The configuration that shows everything, ten steps per graph.
pub open spec fn default_exec_config() -> ExecutionGraphConfig {
    ExecutionGraphConfig {
        show_line_numbers: true,
        show_call_stack: true,
        show_object_states: true,
        show_parameters: true,
        max_steps_per_graph: Some(10),
        highlight_current_step: true,
    }
}

impl Default for ExecutionGraphConfig {
    fn default() -> (r: ExecutionGraphConfig)
        ensures
            r == default_exec_config(),
    {
        ExecutionGraphConfig {
            show_line_numbers: true,
            show_call_stack: true,
            show_object_states: true,
            show_parameters: true,
            max_steps_per_graph: Some(10),
            highlight_current_step: true,
        }
    }
}

/// A summary of the run up to one step.
pub struct ExecutionState {
    pub active_method: String,
    pub call_stack_depth: usize,
    pub objects_created: usize,
    pub method_calls_made: usize,
}

/// One rendered step: its number, its description, its graph text, and the
/// summary of the run so far.
pub struct ExecutionGraphStep {
    pub step_number: usize,
    pub description: String,
    pub dot_code: String,
    pub execution_state: ExecutionState,
}

/// The view of a summary.
#[verifier::ext_equal]
pub ghost struct StateV {
    pub method: Seq<char>,
    pub depth: usize,
    pub objects: int,
    pub calls: int,
}

/// The view of a rendered step.
#[verifier::ext_equal]
pub ghost struct GStepV {
    pub num: usize,
    pub desc: Seq<char>,
    pub dot: Seq<char>,
    pub state: StateV,
}

impl View for ExecutionState {
    type V = StateV;

    open spec fn view(&self) -> StateV {
        StateV {
            method: self.active_method@,
            depth: self.call_stack_depth,
            objects: self.objects_created as int,
            calls: self.method_calls_made as int,
        }
    }
}

impl View for ExecutionGraphStep {
    type V = GStepV;

    open spec fn view(&self) -> GStepV {
        GStepV {
            num: self.step_number,
            desc: self.description@,
            dot: self.dot_code@,
            state: self.execution_state@,
        }
    }
}

/// A name made safe for a node identifier.
pub open spec fn sanitized(s: Seq<char>) -> Seq<char> {
    map_chars(s, s.len() as int, |c: char| sanitize_one(c))
}

/// A label with quotes, braces and bars escaped.
pub open spec fn escaped(s: Seq<char>) -> Seq<char> {
    map_chars(s, s.len() as int, |c: char| escape_one(c))
}

/// The first `n` texts joined with commas.
pub open spec fn join_comma(ps: Seq<Seq<char>>, n: int) -> Seq<char>
    decreases n,
{
    if n <= 0 {
        Seq::empty()
    } else {
        join_comma(ps, n - 1) + (if n - 1 > 0 {
            ", "@
        } else {
            Seq::empty()
        }) + ps[n - 1]
    }
}

/// The raw label of one step, each part closed by a literal `\n`.
pub open spec fn spec_label_core(cfg: ExecutionGraphConfig, s: StepV) -> Seq<char> {
    (if cfg.show_line_numbers {
        "L"@ + dec_str(s.line as nat) + "\\n"@
    } else {
        Seq::<char>::empty()
    }) + (match s.act {
        ActV::New { var, class, .. } => "new "@ + class + "\\n"@ + var,
        ActV::Call { method, params, .. } => if cfg.show_parameters && params.len() > 0 {
            method + "("@ + join_comma(params, params.len() as int) + ")\\n"@
        } else {
            method + "()\\n"@
        },
        ActV::Assign { var, value, .. } => var + " = "@ + value + "\\n"@,
        ActV::Ret { value, .. } => match value {
            Some(v) => "return "@ + v + "\\n"@,
            None => "return\\n"@,
        },
        ActV::Branch { cond, taken } => "if ("@ + cond + ")\\n"@ + (if taken {
            "true"@
        } else {
            "false"@
        }),
        ActV::Loop { kind, iter, .. } => kind + " #"@ + dec_str(iter as nat) + "\\n"@,
        ActV::Access { field, .. } => "read "@ + field + "\\n"@,
        ActV::Mutate { field, new, .. } => field + " = "@ + new + "\\n"@,
    })
}

/// The label of one step: a trailing literal `\n` dropped, the rest
/// escaped.
pub open spec fn spec_label(cfg: ExecutionGraphConfig, s: StepV) -> Seq<char> {
    let core = spec_label_core(cfg, s);
    let cut = if core.len() >= 2 && core[core.len() - 2] == '\\' && core[core.len() - 1] == 'n' {
        core.take(core.len() - 2)
    } else {
        core
    };
    escaped(cut)
}

/// The call-stack box of the step rendered last, one frame per node.
pub open spec fn spec_stack_node(stack: Seq<Seq<char>>, k: int) -> Seq<char> {
    "        stack_"@ + dec_str(k as nat) + " [label=\""@ + escaped(stack[k]) + "\", style=\""@ + (
    if k == stack.len() - 1 {
        "filled, fillcolor=yellow"@
    } else {
        "filled, fillcolor=white"@
    }) + "\"];\n"@ + (if k > 0 {
        "        stack_"@ + dec_str((k - 1) as nat) + " -> stack_"@ + dec_str(k as nat)
            + " [style=dashed];\n"@
    } else {
        Seq::<char>::empty()
    })
}

pub open spec fn spec_stack_nodes(stack: Seq<Seq<char>>, n: int) -> Seq<char>
    decreases n,
{
    if n <= 0 {
        Seq::empty()
    } else {
        spec_stack_nodes(stack, n - 1) + spec_stack_node(stack, n - 1)
    }
}

pub open spec fn spec_call_stack_subgraph(s: StepV) -> Seq<char> {
    "    subgraph cluster_callstack {\n"@ + "        label=\"Call Stack\";\n"@
        + "        style=filled;\n"@ + "        fillcolor=lightblue;\n"@ + (if s.stack.len() == 0 {
        "        empty_stack [label=\"(empty)\", style=dashed];\n"@
    } else {
        spec_stack_nodes(s.stack, s.stack.len() as int)
    }) + "    }\n\n"@
}

/// The objects created in the window, each with its class, first creation
/// order kept and the latest class kept.
pub open spec fn collect_objs(steps: Seq<StepV>, lo: int, hi: int) -> (
    Map<Seq<char>, Seq<char>>,
    Seq<Seq<char>>,
)
    decreases hi - lo,
{
    if lo >= hi {
        (Map::empty(), Seq::empty())
    } else {
        let (m, ks) = collect_objs(steps, lo, hi - 1);
        if 0 <= hi - 1 < steps.len() {
            match steps[hi - 1].act {
                ActV::New { var, class, .. } => (
                    m.insert(var, class),
                    if m.contains_key(var) {
                        ks
                    } else {
                        ks.push(var)
                    },
                ),
                _ => (m, ks),
            }
        } else {
            (m, ks)
        }
    }
}

pub open spec fn spec_obj_nodes(m: Map<Seq<char>, Seq<char>>, ks: Seq<Seq<char>>, n: int) -> Seq<
    char,
>
    decreases n,
{
    if n <= 0 {
        Seq::empty()
    } else {
        spec_obj_nodes(m, ks, n - 1) + "        obj_"@ + sanitized(ks[n - 1]) + " [label=\""@
            + escaped(ks[n - 1]) + "\\n("@ + escaped(
            if m.contains_key(ks[n - 1]) {
                m[ks[n - 1]]
            } else {
                Seq::empty()
            },
        ) + ")\", shape=ellipse, style=\"filled\", fillcolor=white];\n"@
    }
}

pub open spec fn spec_object_state_subgraph(steps: Seq<StepV>, lo: int, hi: int) -> Seq<char> {
    let (m, ks) = collect_objs(steps, lo, hi);
    if ks.len() > 0 {
        "    subgraph cluster_objects {\n"@ + "        label=\"Active Objects\";\n"@
            + "        style=filled;\n"@ + "        fillcolor=lightgreen;\n"@ + spec_obj_nodes(
            m,
            ks,
            ks.len() as int,
        ) + "    }\n\n"@
    } else {
        Seq::empty()
    }
}

/// The timeline nodes of the last five window steps.
pub open spec fn spec_timeline_nodes(
    cfg: ExecutionGraphConfig,
    steps: Seq<StepV>,
    start: int,
    n: int,
    current: usize,
) -> Seq<char>
    decreases n - start,
{
    if start >= n || n > steps.len() {
        Seq::empty()
    } else {
        spec_timeline_nodes(cfg, steps, start, n - 1, current) + "        step_"@ + dec_str(
            steps[n - 1].num as nat,
        ) + " [label=\""@ + spec_label(cfg, steps[n - 1]) + "\", style=\""@ + (if steps[n - 1].num
            == current && cfg.highlight_current_step {
            "filled, fillcolor=orange, color=red, penwidth=3"@
        } else {
            "filled, fillcolor=white"@
        }) + "\", shape=box];\n"@
    }
}

pub open spec fn spec_timeline_edges(steps: Seq<StepV>, start: int, n: int) -> Seq<char>
    decreases n - start,
{
    if start >= n - 1 || n > steps.len() {
        Seq::empty()
    } else {
        spec_timeline_edges(steps, start, n - 1) + "        step_"@ + dec_str(
            steps[n - 2].num as nat,
        ) + " -> step_"@ + dec_str(steps[n - 1].num as nat) + " [color=gray];\n"@
    }
}

pub open spec fn spec_timeline(
    cfg: ExecutionGraphConfig,
    steps: Seq<StepV>,
    lo: int,
    hi: int,
    current: usize,
) -> Seq<char> {
    let start = if hi - lo > 5 {
        hi - 5
    } else {
        lo
    };
    "    subgraph cluster_timeline {\n"@ + "        label=\"Execution Timeline\";\n"@
        + "        style=filled;\n"@ + "        fillcolor=lightyellow;\n"@
        + "        rankdir=LR;\n"@ + spec_timeline_nodes(cfg, steps, start, hi, current)
        + spec_timeline_edges(steps, start, hi) + "    }\n\n"@
}

/// The dashed arrows from receiver objects to the call steps of the
/// window.
pub open spec fn spec_step_connections(steps: Seq<StepV>, lo: int, hi: int) -> Seq<char>
    decreases hi - lo,
{
    if lo >= hi || hi > steps.len() {
        Seq::empty()
    } else {
        spec_step_connections(steps, lo, hi - 1) + (match steps[hi - 1].act {
            ActV::Call { caller, method, .. } => match caller {
                Some(c) => "    obj_"@ + sanitized(c) + " -> step_"@ + dec_str(
                    steps[hi - 1].num as nat,
                ) + " [label=\""@ + escaped(method) + "\", color=blue, style=dashed];\n"@,
                None => Seq::<char>::empty(),
            },
            _ => Seq::<char>::empty(),
        })
    }
}

/// One whole step graph over the window `steps[lo..hi]`.
pub open spec fn spec_step_graph(
    cfg: ExecutionGraphConfig,
    steps: Seq<StepV>,
    lo: int,
    hi: int,
    current: usize,
) -> Seq<char> {
    "digraph ExecutionFlow_"@ + dec_str(current as nat) + " {\n"@ + "    rankdir=TB;\n"@
        + "    node [shape=box, fontname=\"Arial\"];\n"@
        + "    edge [fontname=\"Arial\", fontsize=10];\n"@ + "    compound=true;\n\n"@
        + "    label=\"Execution Flow - Step "@ + dec_str(current as nat) + "\";\n"@
        + "    labelloc=top;\n"@ + "    fontsize=16;\n\n"@ + (if cfg.show_call_stack && hi > lo
        && hi <= steps.len() {
        spec_call_stack_subgraph(steps[hi - 1])
    } else {
        Seq::<char>::empty()
    }) + (if cfg.show_object_states {
        spec_object_state_subgraph(steps, lo, hi)
    } else {
        Seq::<char>::empty()
    }) + spec_timeline(cfg, steps, lo, hi, current) + (if hi - lo > 1 {
        spec_step_connections(steps, lo, hi)
    } else {
        Seq::<char>::empty()
    }) + "}\n"@
}

/// The summary over the window: objects created, calls made, the deepest
/// stack, and the last frame entered.
pub open spec fn spec_state(steps: Seq<StepV>, lo: int, hi: int) -> StateV
    decreases hi - lo,
{
    if lo >= hi || hi > steps.len() {
        StateV { method: "main"@, depth: 0, objects: 0, calls: 0 }
    } else {
        let p = spec_state(steps, lo, hi - 1);
        let s = steps[hi - 1];
        StateV {
            method: if s.stack.len() > 0 {
                s.stack.last()
            } else {
                p.method
            },
            depth: if s.stack.len() > p.depth {
                s.stack.len() as usize
            } else {
                p.depth
            },
            objects: p.objects + (if s.act is New {
                1int
            } else {
                0int
            }),
            calls: p.calls + (if s.act is Call {
                1int
            } else {
                0int
            }),
        }
    }
}

/// The window's lower edge for the next step.
pub open spec fn next_lo(cfg: ExecutionGraphConfig, lo: int, i: int) -> int {
    match cfg.max_steps_per_graph {
        Some(m) => if i + 1 - lo > m {
            lo + 1
        } else {
            lo
        },
        None => lo,
    }
}

/// The rendered steps from position `i` on, with the window starting at
/// `lo`.
pub open spec fn spec_graphs_from(
    cfg: ExecutionGraphConfig,
    steps: Seq<StepV>,
    i: int,
    lo: int,
) -> Seq<GStepV>
    decreases steps.len() - i,
{
    if i < 0 || i >= steps.len() {
        Seq::empty()
    } else {
        let g = GStepV {
            num: if i + 1 <= usize::MAX {
                (i + 1) as usize
            } else {
                0
            },
            desc: steps[i].desc,
            dot: spec_step_graph(
                cfg,
                steps,
                lo,
                i + 1,
                if i + 1 <= usize::MAX {
                    (i + 1) as usize
                } else {
                    0
                },
            ),
            state: spec_state(steps, lo, i + 1),
        };
        seq![g] + spec_graphs_from(cfg, steps, i + 1, next_lo(cfg, lo, i))
    }
}

/// The whole rendering of one flow: one graph per step, over a sliding
/// window of at most the configured number of steps.
pub open spec fn spec_graphs(cfg: ExecutionGraphConfig, steps: Seq<StepV>) -> Seq<GStepV> {
    spec_graphs_from(cfg, steps, 0, 0)
}

use crate::dict::{Dict, dict_wf, lemma_get_entry, spec_keys};
use crate::strings::{chars_to_string, to_chars};
use vstd::string::StringExecFns;

/// The label of one step.
fn step_label(cfg: &ExecutionGraphConfig, s: &ExecutionStep) -> (r: String)
    ensures
        r@ == spec_label(*cfg, s@),
{
    let mut core = String::new();
    if cfg.show_line_numbers {
        core.append("L");
        let ns = usize_to_string(s.line_number);
        core.append(ns.as_str());
        core.append("\\n");
    }
    match &s.action {
        crate::exec_flow::ExecutionAction::ObjectCreation { variable_name, class_name, .. } => {
            core.append("new ");
            core.append(class_name.as_str());
            core.append("\\n");
            core.append(variable_name.as_str());
        },
        crate::exec_flow::ExecutionAction::MethodCall { method_name, parameters, .. } => {
            core.append(method_name.as_str());
            if cfg.show_parameters && parameters.len() > 0 {
                core.append("(");
                let ghost psv = parameters@.map_values(|x: String| x@);
                let mut i: usize = 0;
                let mut joined = String::new();
                while i < parameters.len()
                    invariant
                        i <= parameters@.len(),
                        psv == parameters@.map_values(|x: String| x@),
                        psv.len() == parameters@.len(),
                        joined@ == join_comma(psv, i as int),
                    decreases parameters@.len() - i,
                {
                    proof {
                        assert(psv[i as int] == parameters@[i as int]@);
                    }
                    if i > 0 {
                        joined.append(", ");
                    }
                    joined.append(parameters[i].as_str());
                    i = i + 1;
                    proof {
                        assert(joined@ =~= join_comma(psv, i as int));
                    }
                }
                core.append(joined.as_str());
                core.append(")\\n");
            } else {
                core.append("()\\n");
            }
        },
        crate::exec_flow::ExecutionAction::VariableAssignment { variable_name, value, .. } => {
            core.append(variable_name.as_str());
            core.append(" = ");
            core.append(value.as_str());
            core.append("\\n");
        },
        crate::exec_flow::ExecutionAction::MethodReturn { return_value, .. } => {
            match return_value {
                Some(v) => {
                    core.append("return ");
                    core.append(v.as_str());
                    core.append("\\n");
                },
                None => {
                    core.append("return\\n");
                },
            }
        },
        crate::exec_flow::ExecutionAction::ConditionalBranch { condition, branch_taken } => {
            core.append("if (");
            core.append(condition.as_str());
            core.append(")\\n");
            if *branch_taken {
                core.append("true");
            } else {
                core.append("false");
            }
        },
        crate::exec_flow::ExecutionAction::LoopIteration { loop_type, iteration, .. } => {
            core.append(loop_type.as_str());
            core.append(" #");
            let ns = usize_to_string(*iteration);
            core.append(ns.as_str());
            core.append("\\n");
        },
        crate::exec_flow::ExecutionAction::FieldAccess { field_name, .. } => {
            core.append("read ");
            core.append(field_name.as_str());
            core.append("\\n");
        },
        crate::exec_flow::ExecutionAction::FieldMutation { field_name, new_value, .. } => {
            core.append(field_name.as_str());
            core.append(" = ");
            core.append(new_value.as_str());
            core.append("\\n");
        },
    }
    proof {
        assert(core@ =~= spec_label_core(*cfg, s@));
    }
    let cv = to_chars(core.as_str());
    let cut: String = if cv.len() >= 2 && cv[cv.len() - 2] == '\\' && cv[cv.len() - 1] == 'n' {
        let mut pre: Vec<char> = Vec::new();
        let mut i: usize = 0;
        let end = cv.len() - 2;
        while i < end
            invariant
                i <= end,
                end == cv@.len() - 2,
                pre@ == cv@.subrange(0, i as int),
            decreases end - i,
        {
            pre.push(cv[i]);
            i = i + 1;
            proof {
                assert(pre@ =~= cv@.subrange(0, i as int));
            }
        }
        proof {
            assert(cv@.subrange(0, cv@.len() - 2) =~= cv@.take(cv@.len() - 2));
        }
        chars_to_string(&pre)
    } else {
        core
    };
    escape_label(cut.as_str())
}

/// The call-stack box of the last rendered step.
/// One frame node of the call-stack box, with its link from the frame
/// below.
fn stack_node(stack: &Vec<String>, k: usize) -> (r: String)
    requires
        k < stack@.len(),
    ensures
        r@ == spec_stack_node(stack@.map_values(|x: String| x@), k as int),
{
    let mut out = String::from_str("        stack_");
    let ns = usize_to_string(k);
    out.append(ns.as_str());
    out.append(" [label=\"");
    let lbl = escape_label(stack[k].as_str());
    out.append(lbl.as_str());
    out.append("\", style=\"");
    if k == stack.len() - 1 {
        out.append("filled, fillcolor=yellow");
    } else {
        out.append("filled, fillcolor=white");
    }
    out.append("\"];\n");
    if k > 0 {
        out.append("        stack_");
        let pn = usize_to_string(k - 1);
        out.append(pn.as_str());
        out.append(" -> stack_");
        let cn = usize_to_string(k);
        out.append(cn.as_str());
        out.append(" [style=dashed];\n");
    }
    proof {
        assert(stack@.map_values(|x: String| x@)[k as int] == stack@[k as int]@);
        assert(out@ =~= spec_stack_node(stack@.map_values(|x: String| x@), k as int));
    }
    out
}

fn call_stack_subgraph(s: &ExecutionStep) -> (r: String)
    ensures
        r@ == spec_call_stack_subgraph(s@),
{
    let mut out = String::from_str("    subgraph cluster_callstack {\n");
    out.append("        label=\"Call Stack\";\n");
    out.append("        style=filled;\n");
    out.append("        fillcolor=lightblue;\n");
    if s.call_stack.len() == 0 {
        out.append("        empty_stack [label=\"(empty)\", style=dashed];\n");
    } else {
        let ghost base = out@;
        let ghost stv = s@.stack;
        let mut i: usize = 0;
        while i < s.call_stack.len()
            invariant
                i <= s.call_stack@.len(),
                stv == s@.stack,
                stv.len() == s.call_stack@.len(),
                out@ == base + spec_stack_nodes(stv, i as int),
            decreases s.call_stack@.len() - i,
        {
            let node = stack_node(&s.call_stack, i);
            out.append(node.as_str());
            i = i + 1;
            proof {
                assert(out@ =~= base + spec_stack_nodes(stv, i as int));
            }
        }
    }
    out.append("    }\n\n");
    proof {
        assert(out@ =~= spec_call_stack_subgraph(s@));
    }
    out
}

/// The active-objects box over the window.
fn object_state_subgraph(steps: &Vec<ExecutionStep>, lo: usize, hi: usize) -> (r: String)
    requires
        lo <= hi <= steps@.len(),
    ensures
        r@ == spec_object_state_subgraph(
            steps@.map_values(|s: ExecutionStep| s@),
            lo as int,
            hi as int,
        ),
{
    let ghost stepsv = steps@.map_values(|s: ExecutionStep| s@);
    let mut objs: Dict<String> = Dict::new();
    proof {
        assert(crate::exec_flow::str_map_view(objs) =~= collect_objs(stepsv, lo as int, lo as int).0);
        assert(spec_keys(objs) =~= collect_objs(stepsv, lo as int, lo as int).1);
    }
    let mut i: usize = lo;
    while i < hi
        invariant
            lo <= i <= hi <= steps@.len(),
            stepsv == steps@.map_values(|s: ExecutionStep| s@),
            stepsv.len() == steps@.len(),
            dict_wf(objs),
            crate::exec_flow::str_map_view(objs) == collect_objs(stepsv, lo as int, i as int).0,
            spec_keys(objs) == collect_objs(stepsv, lo as int, i as int).1,
        decreases hi - i,
    {
        proof {
            assert(stepsv[i as int] == steps@[i as int]@);
        }
        match &steps[i].action {
            crate::exec_flow::ExecutionAction::ObjectCreation { variable_name, class_name, .. } => {
                let ghost pre = objs;
                objs.insert(variable_name.clone(), class_name.clone());
                proof {
                    assert(crate::exec_flow::str_map_view(objs) =~= crate::exec_flow::str_map_view(
                        pre,
                    ).insert(variable_name@, class_name@));
                }
            },
            _ => {},
        }
        i = i + 1;
    }
    let ghost pair = collect_objs(stepsv, lo as int, hi as int);
    if objs.len() > 0 {
        let mut out = String::from_str("    subgraph cluster_objects {\n");
        out.append("        label=\"Active Objects\";\n");
        out.append("        style=filled;\n");
        out.append("        fillcolor=lightgreen;\n");
        let ghost base = out@;
        let mut j: usize = 0;
        while j < objs.entries.len()
            invariant
                j <= objs.entries@.len(),
                dict_wf(objs),
                crate::exec_flow::str_map_view(objs) == pair.0,
                spec_keys(objs) == pair.1,
                pair.1.len() == objs.entries@.len(),
                out@ == base + spec_obj_nodes(pair.0, pair.1, j as int),
            decreases objs.entries@.len() - j,
        {
            proof {
                lemma_get_entry(objs, j as int);
                assert(pair.1[j as int] == objs.entries@[j as int].key@);
                assert(pair.0.contains_key(objs.entries@[j as int].key@));
                assert(pair.0[objs.entries@[j as int].key@] == objs.entries@[j as int].val@);
            }
            out.append("        obj_");
            let sn = sanitize_name(objs.entries[j].key.as_str());
            out.append(sn.as_str());
            out.append(" [label=\"");
            let en = escape_label(objs.entries[j].key.as_str());
            out.append(en.as_str());
            out.append("\\n(");
            let ec = escape_label(objs.entries[j].val.as_str());
            out.append(ec.as_str());
            out.append(")\", shape=ellipse, style=\"filled\", fillcolor=white];\n");
            j = j + 1;
            proof {
                assert(out@ =~= base + spec_obj_nodes(pair.0, pair.1, j as int));
            }
        }
        out.append("    }\n\n");
        proof {
            assert(out@ =~= spec_object_state_subgraph(stepsv, lo as int, hi as int));
        }
        out
    } else {
        let out = String::new();
        proof {
            assert(out@ =~= spec_object_state_subgraph(stepsv, lo as int, hi as int));
        }
        out
    }
}

/// One timeline node.
fn timeline_node(cfg: &ExecutionGraphConfig, s: &ExecutionStep, current: usize) -> (r: String)
    ensures
        r@ == "        step_"@ + dec_str(s@.num as nat) + " [label=\""@ + spec_label(*cfg, s@)
            + "\", style=\""@ + (if s@.num == current && cfg.highlight_current_step {
            "filled, fillcolor=orange, color=red, penwidth=3"@
        } else {
            "filled, fillcolor=white"@
        }) + "\", shape=box];\n"@,
{
    let mut out = String::from_str("        step_");
    let ns = usize_to_string(s.step_number);
    out.append(ns.as_str());
    out.append(" [label=\"");
    let lbl = step_label(cfg, s);
    out.append(lbl.as_str());
    out.append("\", style=\"");
    if s.step_number == current && cfg.highlight_current_step {
        out.append("filled, fillcolor=orange, color=red, penwidth=3");
    } else {
        out.append("filled, fillcolor=white");
    }
    out.append("\", shape=box];\n");
    proof {
        assert(out@ =~= "        step_"@ + dec_str(s@.num as nat) + " [label=\""@ + spec_label(
            *cfg,
            s@,
        ) + "\", style=\""@ + (if s@.num == current && cfg.highlight_current_step {
            "filled, fillcolor=orange, color=red, penwidth=3"@
        } else {
            "filled, fillcolor=white"@
        }) + "\", shape=box];\n"@);
    }
    out
}

/// The timeline box over the window.
#[verifier::rlimit(80)]
fn execution_timeline(
    cfg: &ExecutionGraphConfig,
    steps: &Vec<ExecutionStep>,
    lo: usize,
    hi: usize,
    current: usize,
) -> (r: String)
    requires
        lo <= hi <= steps@.len(),
    ensures
        r@ == spec_timeline(
            *cfg,
            steps@.map_values(|s: ExecutionStep| s@),
            lo as int,
            hi as int,
            current,
        ),
{
    let ghost stepsv = steps@.map_values(|s: ExecutionStep| s@);
    let mut out = String::from_str("    subgraph cluster_timeline {\n");
    out.append("        label=\"Execution Timeline\";\n");
    out.append("        style=filled;\n");
    out.append("        fillcolor=lightyellow;\n");
    out.append("        rankdir=LR;\n");
    let start: usize = if hi - lo > 5 {
        hi - 5
    } else {
        lo
    };
    let ghost base = out@;
    let mut i: usize = start;
    while i < hi
        invariant
            start <= i <= hi <= steps@.len(),
            stepsv == steps@.map_values(|s: ExecutionStep| s@),
            stepsv.len() == steps@.len(),
            out@ == base + spec_timeline_nodes(*cfg, stepsv, start as int, i as int, current),
        decreases hi - i,
    {
        proof {
            assert(stepsv[i as int] == steps@[i as int]@);
        }
        let node = timeline_node(cfg, &steps[i], current);
        out.append(node.as_str());
        i = i + 1;
        proof {
            assert(out@ =~= base + spec_timeline_nodes(*cfg, stepsv, start as int, i as int, current));
        }
    }
    let edges = timeline_edges(steps, start, hi);
    out.append(edges.as_str());
    out.append("    }\n\n");
    proof {
        assert(out@ =~= spec_timeline(*cfg, stepsv, lo as int, hi as int, current));
    }
    out
}

/// The gray arrows joining the timeline's steps in order.
fn timeline_edges(steps: &Vec<ExecutionStep>, start: usize, hi: usize) -> (r: String)
    requires
        start <= steps@.len(),
        hi <= steps@.len(),
    ensures
        r@ == spec_timeline_edges(
            steps@.map_values(|s: ExecutionStep| s@),
            start as int,
            hi as int,
        ),
{
    let ghost stepsv = steps@.map_values(|s: ExecutionStep| s@);
    let mut out = String::new();
    if hi > 0 && start < hi - 1 {
        let mut i: usize = start;
        while i + 1 < hi
            invariant
                start <= i,
                i + 1 <= hi <= steps@.len(),
                stepsv == steps@.map_values(|s: ExecutionStep| s@),
                stepsv.len() == steps@.len(),
                out@ == spec_timeline_edges(stepsv, start as int, i + 1),
            decreases hi - i,
        {
            proof {
                assert(stepsv[i as int] == steps@[i as int]@);
                assert(stepsv[i + 1] == steps@[i + 1]@);
            }
            out.append("        step_");
            let an = usize_to_string(steps[i].step_number);
            out.append(an.as_str());
            out.append(" -> step_");
            let bn = usize_to_string(steps[i + 1].step_number);
            out.append(bn.as_str());
            out.append(" [color=gray];\n");
            i = i + 1;
            proof {
                assert(out@ =~= spec_timeline_edges(stepsv, start as int, i + 1));
            }
        }
    }
    proof {
        assert(out@ =~= spec_timeline_edges(stepsv, start as int, hi as int));
    }
    out
}

/// The receiver arrows of the window's call steps.
fn step_connections(steps: &Vec<ExecutionStep>, lo: usize, hi: usize) -> (r: String)
    requires
        lo <= hi <= steps@.len(),
    ensures
        r@ == spec_step_connections(
            steps@.map_values(|s: ExecutionStep| s@),
            lo as int,
            hi as int,
        ),
{
    let ghost stepsv = steps@.map_values(|s: ExecutionStep| s@);
    let mut out = String::new();
    let mut i: usize = lo;
    while i < hi
        invariant
            lo <= i <= hi <= steps@.len(),
            stepsv == steps@.map_values(|s: ExecutionStep| s@),
            stepsv.len() == steps@.len(),
            out@ == spec_step_connections(stepsv, lo as int, i as int),
        decreases hi - i,
    {
        proof {
            assert(stepsv[i as int] == steps@[i as int]@);
        }
        match &steps[i].action {
            crate::exec_flow::ExecutionAction::MethodCall { caller, method_name, .. } => {
                match caller {
                    Some(c) => {
                        out.append("    obj_");
                        let sn = sanitize_name(c.as_str());
                        out.append(sn.as_str());
                        out.append(" -> step_");
                        let nn = usize_to_string(steps[i].step_number);
                        out.append(nn.as_str());
                        out.append(" [label=\"");
                        let mn = escape_label(method_name.as_str());
                        out.append(mn.as_str());
                        out.append("\", color=blue, style=dashed];\n");
                    },
                    None => {},
                }
            },
            _ => {},
        }
        i = i + 1;
        proof {
            assert(out@ =~= spec_step_connections(stepsv, lo as int, i as int));
        }
    }
    out
}

/// The summary of the window.
fn calculate_execution_state(steps: &Vec<ExecutionStep>, lo: usize, hi: usize) -> (r:
    ExecutionState)
    requires
        lo <= hi <= steps@.len(),
    ensures
        r@ == spec_state(steps@.map_values(|s: ExecutionStep| s@), lo as int, hi as int),
{
    let ghost stepsv = steps@.map_values(|s: ExecutionStep| s@);
    let mut method = String::from_str("main");
    let mut depth: usize = 0;
    let mut objects: usize = 0;
    let mut calls: usize = 0;
    let mut i: usize = lo;
    while i < hi
        invariant
            lo <= i <= hi <= steps@.len(),
            stepsv == steps@.map_values(|s: ExecutionStep| s@),
            stepsv.len() == steps@.len(),
            method@ == spec_state(stepsv, lo as int, i as int).method,
            depth == spec_state(stepsv, lo as int, i as int).depth,
            objects == spec_state(stepsv, lo as int, i as int).objects,
            calls == spec_state(stepsv, lo as int, i as int).calls,
            objects <= i - lo,
            calls <= i - lo,
        decreases hi - i,
    {
        proof {
            assert(stepsv[i as int] == steps@[i as int]@);
        }
        let s = &steps[i];
        match &s.action {
            crate::exec_flow::ExecutionAction::ObjectCreation { .. } => {
                objects = objects + 1;
            },
            crate::exec_flow::ExecutionAction::MethodCall { .. } => {
                calls = calls + 1;
            },
            _ => {},
        }
        if s.call_stack.len() > depth {
            depth = s.call_stack.len();
        }
        if s.call_stack.len() > 0 {
            method = s.call_stack[s.call_stack.len() - 1].clone();
        }
        i = i + 1;
    }
    ExecutionState {
        active_method: method,
        call_stack_depth: depth,
        objects_created: objects,
        method_calls_made: calls,
    }
}

/// The step-by-step renderer of one flow.
pub struct ExecutionGraphGenerator {
    config: ExecutionGraphConfig,
}

impl ExecutionGraphGenerator {
    /// The configuration the renderer draws with.
    pub closed spec fn spec_config(&self) -> ExecutionGraphConfig {
        self.config
    }

    /// A renderer with the default configuration.
    pub fn new() -> (r: ExecutionGraphGenerator)
        ensures
            r.spec_config() == default_exec_config(),
    {
        ExecutionGraphGenerator { config: ExecutionGraphConfig::default() }
    }

    /// A renderer with the given configuration.
    pub fn with_config(config: ExecutionGraphConfig) -> (r: ExecutionGraphGenerator)
        ensures
            r.spec_config() == config,
    {
        ExecutionGraphGenerator { config }
    }

    /// One whole step graph over the window.
    fn generate_step_graph(&self, steps: &Vec<ExecutionStep>, lo: usize, hi: usize, current: usize)
        -> (r: String)
        requires
            lo <= hi <= steps@.len(),
        ensures
            r@ == spec_step_graph(
                self.spec_config(),
                steps@.map_values(|s: ExecutionStep| s@),
                lo as int,
                hi as int,
                current,
            ),
    {
        let cfg = &self.config;
        let mut out = String::from_str("digraph ExecutionFlow_");
        let cn = usize_to_string(current);
        out.append(cn.as_str());
        out.append(" {\n");
        out.append("    rankdir=TB;\n");
        out.append("    node [shape=box, fontname=\"Arial\"];\n");
        out.append("    edge [fontname=\"Arial\", fontsize=10];\n");
        out.append("    compound=true;\n\n");
        out.append("    label=\"Execution Flow - Step ");
        out.append(cn.as_str());
        out.append("\";\n");
        out.append("    labelloc=top;\n");
        out.append("    fontsize=16;\n\n");
        if cfg.show_call_stack && hi > lo {
            let cs = call_stack_subgraph(&steps[hi - 1]);
            out.append(cs.as_str());
        }
        if cfg.show_object_states {
            let os = object_state_subgraph(steps, lo, hi);
            out.append(os.as_str());
        }
        let tl = execution_timeline(cfg, steps, lo, hi, current);
        out.append(tl.as_str());
        if hi - lo > 1 {
            let sc = step_connections(steps, lo, hi);
            out.append(sc.as_str());
        }
        out.append("}\n");
        proof {
            assert(out@ =~= spec_step_graph(
                self.spec_config(),
                steps@.map_values(|s: ExecutionStep| s@),
                lo as int,
                hi as int,
                current,
            ));
        }
        out
    }

    /// One rendered step per recorded step, each over a sliding window of
    /// at most the configured number of steps.
    pub fn generate_execution_graphs(&self, flow: &ExecutionFlow) -> (r: Vec<ExecutionGraphStep>)
        ensures
            r@.map_values(|g: ExecutionGraphStep| g@) == spec_graphs(
                self.spec_config(),
                flow.steps@.map_values(|s: ExecutionStep| s@),
            ),
    {
        let cfg = &self.config;
        let ghost stepsv = flow.steps@.map_values(|s: ExecutionStep| s@);
        let mut out: Vec<ExecutionGraphStep> = Vec::new();
        let mut lo: usize = 0;
        let mut i: usize = 0;
        proof {
            assert(out@.map_values(|g: ExecutionGraphStep| g@) =~= Seq::<GStepV>::empty());
        }
        while i < flow.steps.len()
            invariant
                lo <= i <= flow.steps@.len(),
                stepsv == flow.steps@.map_values(|s: ExecutionStep| s@),
                stepsv.len() == flow.steps@.len(),
                cfg == &self.config,
                spec_graphs(self.spec_config(), stepsv) == out@.map_values(
                    |g: ExecutionGraphStep| g@,
                ) + spec_graphs_from(self.spec_config(), stepsv, i as int, lo as int),
            decreases flow.steps@.len() - i,
        {
            let ghost prev = out@.map_values(|g: ExecutionGraphStep| g@);
            proof {
                assert(stepsv[i as int] == flow.steps@[i as int]@);
            }
            let dot = self.generate_step_graph(&flow.steps, lo, i + 1, i + 1);
            let state = calculate_execution_state(&flow.steps, lo, i + 1);
            let g = ExecutionGraphStep {
                step_number: i + 1,
                description: flow.steps[i].description.clone(),
                dot_code: dot,
                execution_state: state,
            };
            out.push(g);
            proof {
                assert(out@.map_values(|x: ExecutionGraphStep| x@) =~= prev.push(g@));
                assert(prev + spec_graphs_from(self.spec_config(), stepsv, i as int, lo as int)
                    =~= prev.push(g@) + spec_graphs_from(
                    self.spec_config(),
                    stepsv,
                    i + 1,
                    next_lo(self.spec_config(), lo as int, i as int),
                ));
            }
            match cfg.max_steps_per_graph {
                Some(m) => {
                    if i + 1 - lo > m {
                        lo = lo + 1;
                    }
                },
                None => {},
            }
            i = i + 1;
        }
        proof {
            assert(out@.map_values(|g: ExecutionGraphStep| g@) + spec_graphs_from(
                self.spec_config(),
                stepsv,
                stepsv.len() as int,
                lo as int,
            ) =~= out@.map_values(|g: ExecutionGraphStep| g@));
        }
        out
    }
}

} // verus!
