use vstd::prelude::*;

verus! {

use crate::analyzer::{AnalysisResult, AnalysisV, name_of, has_mod};
use crate::dict::{Dict, spec_get, spec_keys, dict_wf};
use crate::strings::{
    is_uppercase_char, spec_lines, spec_trim, starts_uppercase, str_eq, split_lines, trim_str,
};
use crate::tree::{SyntaxNode, spec_child_by_field, spec_line};
use crate::numeric::spec_compound;

/// How many nested stepped-into frames the simulator permits.
pub open spec fn max_depth() -> usize {
    10
}

/// One event of the simulated execution.
pub enum ExecutionAction {
    MethodCall {
        caller: Option<String>,
        method_name: String,
        target_class: String,
        parameters: Vec<String>,
    },
    ObjectCreation { variable_name: String, class_name: String, constructor_params: Vec<String> },
    VariableAssignment { variable_name: String, value_type: String, value: String },
    MethodReturn { method_name: String, return_value: Option<String> },
    ConditionalBranch { condition: String, branch_taken: bool },
    LoopIteration { loop_type: String, condition: String, iteration: usize },
    FieldAccess { field_name: String, value: Option<String> },
    FieldMutation { field_name: String, old_value: Option<String>, new_value: String },
}

/// One recorded step: its number, the source position and trimmed line,
/// the event, the call stack as it stands on entry to the current frame,
/// the objects active so far, and a short description.
pub struct ExecutionStep {
    pub step_number: usize,
    pub line_number: usize,
    pub source_line: String,
    pub action: ExecutionAction,
    pub call_stack: Vec<String>,
    pub active_objects: Vec<String>,
    pub description: String,
}

/// The whole simulated run: the ordered steps, the call graph in call
/// order, each object's creation and uses by step number, and the deepest
/// call stack any step recorded.
pub struct ExecutionFlow {
    pub steps: Vec<ExecutionStep>,
    pub call_graph: Dict<Vec<String>>,
    pub object_lifecycle: Dict<Vec<usize>>,
    pub max_call_stack_depth: usize,
}

/// The view of an event.
#[verifier::ext_equal]
pub ghost enum ActV {
    Call { caller: Option<Seq<char>>, method: Seq<char>, target: Seq<char>, params: Seq<Seq<char>> },
    New { var: Seq<char>, class: Seq<char>, params: Seq<Seq<char>> },
    Assign { var: Seq<char>, ty: Seq<char>, value: Seq<char> },
    Ret { method: Seq<char>, value: Option<Seq<char>> },
    Branch { cond: Seq<char>, taken: bool },
    Loop { kind: Seq<char>, cond: Seq<char>, iter: usize },
    Access { field: Seq<char>, value: Option<Seq<char>> },
    Mutate { field: Seq<char>, old: Option<Seq<char>>, new: Seq<char> },
}

/// The view of a step.
#[verifier::ext_equal]
pub ghost struct StepV {
    pub num: usize,
    pub line: usize,
    pub src: Seq<char>,
    pub act: ActV,
    pub stack: Seq<Seq<char>>,
    pub active: Seq<Seq<char>>,
    pub desc: Seq<char>,
}

impl View for ExecutionAction {
    type V = ActV;

    open spec fn view(&self) -> ActV {
        match self {
            ExecutionAction::MethodCall { caller, method_name, target_class, parameters } => ActV::Call {
                caller: match caller {
                    Some(c) => Some(c@),
                    None => None,
                },
                method: method_name@,
                target: target_class@,
                params: parameters@.map_values(|s: String| s@),
            },
            ExecutionAction::ObjectCreation { variable_name, class_name, constructor_params } => ActV::New {
                var: variable_name@,
                class: class_name@,
                params: constructor_params@.map_values(|s: String| s@),
            },
            ExecutionAction::VariableAssignment { variable_name, value_type, value } => ActV::Assign {
                var: variable_name@,
                ty: value_type@,
                value: value@,
            },
            ExecutionAction::MethodReturn { method_name, return_value } => ActV::Ret {
                method: method_name@,
                value: match return_value {
                    Some(v) => Some(v@),
                    None => None,
                },
            },
            ExecutionAction::ConditionalBranch { condition, branch_taken } => ActV::Branch {
                cond: condition@,
                taken: *branch_taken,
            },
            ExecutionAction::LoopIteration { loop_type, condition, iteration } => ActV::Loop {
                kind: loop_type@,
                cond: condition@,
                iter: *iteration,
            },
            ExecutionAction::FieldAccess { field_name, value } => ActV::Access {
                field: field_name@,
                value: match value {
                    Some(v) => Some(v@),
                    None => None,
                },
            },
            ExecutionAction::FieldMutation { field_name, old_value, new_value } => ActV::Mutate {
                field: field_name@,
                old: match old_value {
                    Some(v) => Some(v@),
                    None => None,
                },
                new: new_value@,
            },
        }
    }
}

impl View for ExecutionStep {
    type V = StepV;

    open spec fn view(&self) -> StepV {
        StepV {
            num: self.step_number,
            line: self.line_number,
            src: self.source_line@,
            act: self.action@,
            stack: self.call_stack@.map_values(|s: String| s@),
            active: self.active_objects@.map_values(|s: String| s@),
            desc: self.description@,
        }
    }
}

/// The first top-level member of `ms` from position `i` on that matches:
/// a method of the given name, or a constructor when the name is the
/// constructor sentinel.
pub open spec fn scan_members(ms: Seq<SyntaxNode>, i: int, member: Seq<char>) -> Option<SyntaxNode>
    decreases ms.len() - i,
{
    if i < 0 || i >= ms.len() {
        None
    } else if ms[i].kind@ == "method_declaration"@ && name_of(ms[i]) == member {
        Some(ms[i])
    } else if ms[i].kind@ == "constructor_declaration"@ && member == "<init>"@ {
        Some(ms[i])
    } else {
        scan_members(ms, i + 1, member)
    }
}

/// The first top-level class of the given name from position `i` on whose
/// body declares the member; the declaration node of that member.
pub open spec fn scan_classes(cs: Seq<SyntaxNode>, i: int, cls: Seq<char>, member: Seq<char>)
    -> Option<SyntaxNode>
    decreases cs.len() - i,
{
    if i < 0 || i >= cs.len() {
        None
    } else if (cs[i].kind@ == "class_declaration"@ || cs[i].kind@ == "interface_declaration"@)
        && name_of(cs[i]) == cls {
        match spec_child_by_field(cs[i], "body"@) {
            Some(b) => match scan_members(b.children@, 0, member) {
                Some(m) => Some(m),
                None => scan_classes(cs, i + 1, cls, member),
            },
            None => scan_classes(cs, i + 1, cls, member),
        }
    } else {
        scan_classes(cs, i + 1, cls, member)
    }
}

/// The declaration node of `cls.member` in the tree, found by a top-level
/// class scan; the member body index of a run is this lookup.
pub open spec fn spec_find_member(root: SyntaxNode, cls: Seq<char>, member: Seq<char>) -> Option<
    SyntaxNode,
> {
    scan_classes(root.children@, 0, cls, member)
}

/// The first method named `main` that carries a `static` modifier, in a
/// depth-first walk stopping at the first match.
pub open spec fn spec_find_main(n: SyntaxNode) -> Option<SyntaxNode>
    decreases n, 1nat, 0nat,
{
    if n.kind@ == "method_declaration"@ && name_of(n) == "main"@ && has_mod(n, "static"@) {
        Some(n)
    } else {
        scan_main(n.children@, 0)
    }
}

/// The first static `main` among the subtrees from position `i` on.
pub open spec fn scan_main(cs: Seq<SyntaxNode>, i: int) -> Option<SyntaxNode>
    decreases cs, 0nat, cs.len() - i,
{
    if i < 0 || i >= cs.len() {
        None
    } else {
        match spec_find_main(cs[i]) {
            Some(m) => Some(m),
            None => scan_main(cs, i + 1),
        }
    }
}

/// The texts of the named children from position `i` on: the arguments of
/// a call, with the punctuation tokens left out.
pub open spec fn spec_args(cs: Seq<SyntaxNode>, i: int) -> Seq<Seq<char>>
    decreases cs.len() - i,
{
    if i < 0 || i >= cs.len() {
        Seq::empty()
    } else if cs[i].named {
        seq![cs[i].text@] + spec_args(cs, i + 1)
    } else {
        spec_args(cs, i + 1)
    }
}

/// The trimmed source line `k`, one-based; empty outside the text.
pub open spec fn spec_source_line(lines: Seq<Seq<char>>, k: usize) -> Seq<char> {
    if 1 <= k && k <= lines.len() {
        spec_trim(lines[k - 1])
    } else {
        Seq::empty()
    }
}

/// The class part of a frame name: everything before the first dot.
pub open spec fn class_of_frame_from(f: Seq<char>, i: int) -> Seq<char>
    decreases f.len() - i,
{
    if i < 0 || i >= f.len() {
        f
    } else if f[i] == '.' {
        f.subrange(0, i)
    } else {
        class_of_frame_from(f, i + 1)
    }
}

pub open spec fn class_of_frame(f: Seq<char>) -> Seq<char> {
    class_of_frame_from(f, 0)
}

/// The first child index filling field `f` from position `i` on, or -1.
pub open spec fn field_idx(cs: Seq<SyntaxNode>, i: int, f: Seq<char>) -> int
    decreases cs.len() - i,
{
    if i < 0 || i >= cs.len() {
        -1
    } else if cs[i].field@ == f {
        i
    } else {
        field_idx(cs, i + 1, f)
    }
}

/// The first child index of kind `k` from position `i` on, or -1.
pub open spec fn kind_idx(cs: Seq<SyntaxNode>, i: int, k: Seq<char>) -> int
    decreases cs.len() - i,
{
    if i < 0 || i >= cs.len() {
        -1
    } else if cs[i].kind@ == k {
        i
    } else {
        kind_idx(cs, i + 1, k)
    }
}

/// The first named child index from position `i` on, or -1.
pub open spec fn named_idx(cs: Seq<SyntaxNode>, i: int) -> int
    decreases cs.len() - i,
{
    if i < 0 || i >= cs.len() {
        -1
    } else if cs[i].named {
        i
    } else {
        named_idx(cs, i + 1)
    }
}

proof fn lemma_field_idx(cs: Seq<SyntaxNode>, i: int, f: Seq<char>)
    requires
        0 <= i <= cs.len(),
    ensures
        ({
            let k = field_idx(cs, i, f);
            &&& (k == -1 <==> crate::tree::find_field_from(cs, i, f) is None)
            &&& (k >= 0 ==> i <= k < cs.len() && crate::tree::find_field_from(cs, i, f) == Some(
                cs[k],
            ))
        }),
    decreases cs.len() - i,
{
    if i < cs.len() {
        lemma_field_idx(cs, i + 1, f);
    }
}

proof fn lemma_kind_idx(cs: Seq<SyntaxNode>, i: int, k: Seq<char>)
    requires
        0 <= i <= cs.len(),
    ensures
        ({
            let j = kind_idx(cs, i, k);
            &&& (j == -1 <==> crate::tree::find_kind_from(cs, i, k) is None)
            &&& (j >= 0 ==> i <= j < cs.len() && crate::tree::find_kind_from(cs, i, k) == Some(
                cs[j],
            ))
        }),
    decreases cs.len() - i,
{
    if i < cs.len() {
        lemma_kind_idx(cs, i + 1, k);
    }
}

/// The simulator's whole state, as contracts see it: the steps recorded,
/// the call stack, the active objects with their order of first use, the
/// per-class field values, the parameter bindings, the call graph, and
/// each object's life of step numbers.
#[verifier::ext_equal]
pub ghost struct SimV {
    pub steps: Seq<StepV>,
    pub stack: Seq<Seq<char>>,
    pub active: Map<Seq<char>, Seq<char>>,
    pub active_keys: Seq<Seq<char>>,
    pub fields: Map<Seq<char>, Seq<char>>,
    pub params: Map<Seq<char>, Seq<char>>,
    pub param_keys: Seq<Seq<char>>,
    pub graph: Map<Seq<char>, Seq<Seq<char>>>,
    pub graph_keys: Seq<Seq<char>>,
    pub life: Map<Seq<char>, Seq<usize>>,
    pub life_keys: Seq<Seq<char>>,
}

/// What one run reads and never changes: the tree, the source lines, and
/// the static analysis.
#[verifier::ext_equal]
pub ghost struct CtxV {
    pub root: SyntaxNode,
    pub lines: Seq<Seq<char>>,
    pub anal: AnalysisV,
}

/// The state every run starts from.
pub open spec fn init_sim() -> SimV {
    SimV {
        steps: Seq::empty(),
        stack: Seq::empty(),
        active: Map::empty(),
        active_keys: Seq::empty(),
        fields: Map::empty(),
        params: Map::empty(),
        param_keys: Seq::empty(),
        graph: Map::empty(),
        graph_keys: Seq::empty(),
        life: Map::empty(),
        life_keys: Seq::empty(),
    }
}

/// Appends one step: numbered one past the count so far, with the call
/// stack and active objects as they stand.
pub open spec fn emit(st: SimV, line: usize, src: Seq<char>, act: ActV, desc: Seq<char>) -> SimV {
    let step = StepV {
        num: if st.steps.len() + 1 <= usize::MAX {
            (st.steps.len() + 1) as usize
        } else {
            0
        },
        line,
        src,
        act,
        stack: st.stack,
        active: st.active_keys,
        desc,
    };
    SimV { steps: st.steps.push(step), ..st }
}

/// The top frame, or `unknown` outside any frame.
pub open spec fn stack_top(st: SimV) -> Seq<char> {
    if st.stack.len() > 0 {
        st.stack.last()
    } else {
        "unknown"@
    }
}

/// The class a receiver resolves to in the running state: the live
/// objects first, then static inference, then the registry, then an
/// uppercase receiver stands for itself, and anything else is `unknown`.
pub open spec fn resolve_sim(anal: AnalysisV, st: SimV, name: Seq<char>) -> Seq<char> {
    if st.active.contains_key(name) {
        st.active[name]
    } else if anal.infer.contains_key(name) {
        anal.infer[name]
    } else if anal.registry.contains_key(name) {
        anal.registry[name].class
    } else if name.len() > 0 && is_uppercase_char(name[0]) {
        name
    } else {
        "unknown"@
    }
}

/// Records one call under the calling frame, in call order.
pub open spec fn record_call(st: SimV, caller: Seq<char>, callee: Seq<char>) -> SimV {
    let prev = if st.graph.contains_key(caller) {
        st.graph[caller]
    } else {
        Seq::empty()
    };
    SimV {
        graph: st.graph.insert(caller, prev.push(callee)),
        graph_keys: if st.graph.contains_key(caller) {
            st.graph_keys
        } else {
            st.graph_keys.push(caller)
        },
        ..st
    }
}

/// Starts an object's life at a step number.
pub open spec fn record_creation(st: SimV, obj: Seq<char>, num: usize) -> SimV {
    let prev = if st.life.contains_key(obj) {
        st.life[obj]
    } else {
        Seq::empty()
    };
    SimV {
        life: st.life.insert(obj, prev.push(num)),
        life_keys: if st.life.contains_key(obj) {
            st.life_keys
        } else {
            st.life_keys.push(obj)
        },
        ..st
    }
}

/// Appends a use to an object's life, if its life has begun.
pub open spec fn record_usage(st: SimV, caller: Option<Seq<char>>, num: usize) -> SimV {
    match caller {
        Some(obj) => if st.life.contains_key(obj) {
            SimV { life: st.life.insert(obj, st.life[obj].push(num)), ..st }
        } else {
            st
        },
        None => st,
    }
}

/// Marks a variable as a live object of a class.
pub open spec fn record_active(st: SimV, var: Seq<char>, cls: Seq<char>) -> SimV {
    SimV {
        active: st.active.insert(var, cls),
        active_keys: if st.active.contains_key(var) {
            st.active_keys
        } else {
            st.active_keys.push(var)
        },
        ..st
    }
}

/// Binds the accepted formals from position `i` on, positionally, to the
/// call-site argument texts, `j` counting the formals already bound.
pub open spec fn bind_params(st: SimV, formals: Seq<SyntaxNode>, args: Seq<Seq<char>>, i: int, j: int)
    -> SimV
    decreases formals.len() - i,
{
    if i < 0 || i >= formals.len() {
        st
    } else if formals[i].kind@ == "formal_parameter"@ {
        let pname = name_of(formals[i]);
        let st1 = if 0 <= j < args.len() && pname.len() > 0 {
            SimV {
                params: st.params.insert(pname, args[j]),
                param_keys: if st.params.contains_key(pname) {
                    st.param_keys
                } else {
                    st.param_keys.push(pname)
                },
                ..st
            }
        } else {
            st
        };
        bind_params(st1, formals, args, i + 1, j + 1)
    } else {
        bind_params(st, formals, args, i + 1, j)
    }
}

/// The children of a member declaration's `parameters` clause.
pub open spec fn formals_of(decl: SyntaxNode) -> Seq<SyntaxNode> {
    match spec_child_by_field(decl, "parameters"@) {
        Some(ps) => ps.children@,
        None => Seq::empty(),
    }
}

/// The call arguments of a node's `arguments` clause.
pub open spec fn args_of(n: SyntaxNode) -> Seq<Seq<char>> {
    match spec_child_by_field(n, "arguments"@) {
        Some(a) => spec_args(a.children@, 0),
        None => Seq::empty(),
    }
}

/// The text of a field child, or empty.
pub open spec fn field_text(n: SyntaxNode, f: Seq<char>) -> Seq<char> {
    match spec_child_by_field(n, f) {
        Some(c) => c.text@,
        None => Seq::empty(),
    }
}

/// Whether a node is a field access on `this`.
pub open spec fn is_this_field(n: SyntaxNode) -> bool {
    n.kind@ == "field_access"@ && (match spec_child_by_field(n, "object"@) {
        Some(o) => o.text@ == "this"@,
        None => false,
    })
}

/// Simulates one statement: the single-path walk of §4 of the design,
/// dispatching on the node's kind; a leaf of an unknown kind is captured
/// as a generic step, an unknown kind with children contributes nothing.
pub open spec fn sim_stmt(ctx: CtxV, st: SimV, n: SyntaxNode, depth: nat) -> SimV
    decreases depth, n, 3nat, 0nat,
{
    let line = spec_line(n);
    let src = spec_source_line(ctx.lines, line);
    if n.kind@ == "local_variable_declaration"@ {
        sim_var_decl(ctx, st, n, line, src, depth)
    } else if n.kind@ == "expression_statement"@ {
        if n.children@.len() > 0 {
            let c = n.children@[0];
            if c.kind@ == "method_invocation"@ {
                sim_invoke(ctx, st, c, line, src, depth)
            } else if c.kind@ == "assignment_expression"@ {
                sim_assign(ctx, st, c, line, src)
            } else {
                st
            }
        } else {
            st
        }
    } else if n.kind@ == "if_statement"@ {
        sim_if(ctx, st, n, line, src, depth)
    } else if n.kind@ == "for_statement"@ || n.kind@ == "while_statement"@ || n.kind@
        == "enhanced_for_statement"@ {
        sim_loop(ctx, st, n, line, src, depth)
    } else if n.kind@ == "return_statement"@ {
        sim_return(ctx, st, n, line, src)
    } else if n.kind@ == "block"@ {
        sim_block_from(ctx, st, n, 0, depth)
    } else if n.children@.len() == 0 {
        emit(
            st,
            line,
            src,
            ActV::Assign { var: "unknown"@, ty: "statement"@, value: n.text@ },
            "Execute statement: "@ + n.kind@,
        )
    } else {
        st
    }
}

/// Simulates the named statements of a block from position `i` on.
pub open spec fn sim_block_from(ctx: CtxV, st: SimV, n: SyntaxNode, i: int, depth: nat) -> SimV
    decreases depth, n, 1nat, n.children@.len() - i,
{
    if i < 0 || i >= n.children@.len() {
        st
    } else if n.children@[i].named {
        sim_block_from(ctx, sim_stmt(ctx, st, n.children@[i], depth), n, i + 1, depth)
    } else {
        sim_block_from(ctx, st, n, i + 1, depth)
    }
}

/// Simulates a local declaration: an object construction registers the
/// variable and steps into the constructor when its body is locatable and
/// depth remains; a call initializer is simulated and the raw call text
/// assigned; any other initializer is captured as text; a bare declaration
/// is recorded as declared.
pub open spec fn sim_var_decl(
    ctx: CtxV,
    st: SimV,
    n: SyntaxNode,
    line: usize,
    src: Seq<char>,
    depth: nat,
) -> SimV
    decreases depth, n, 2nat, 0nat,
{
    let ty_decl = crate::analyzer::type_field_text(n);
    let di = kind_idx(n.children@, 0, "variable_declarator"@);
    if di < 0 || di >= n.children@.len() {
        st
    } else {
        let d = n.children@[di];
        let var = name_of(d);
        let vi = field_idx(d.children@, 0, "value"@);
        if vi < 0 || vi >= d.children@.len() {
            if var.len() > 0 {
                emit(
                    st,
                    line,
                    src,
                    ActV::Assign { var, ty: ty_decl, value: "declared"@ },
                    "Declare variable: "@ + var,
                )
            } else {
                st
            }
        } else {
            let v = d.children@[vi];
            if v.kind@ == "object_creation_expression"@ {
                let cls = match spec_child_by_field(v, "type"@) {
                    Some(t) => t.text@,
                    None => ty_decl,
                };
                let args = args_of(v);
                let st1 = record_active(st, var, cls);
                let decl = spec_find_member(ctx.root, cls, "<init>"@);
                let bidx = match decl {
                    Some(dd) => field_idx(dd.children@, 0, "body"@),
                    None => -1,
                };
                if decl is Some && bidx >= 0 && bidx < decl.unwrap().children@.len()
                    && st1.stack.len() < max_depth() && depth > 0 {
                    let dd = decl.unwrap();
                    let st2 = SimV { stack: st1.stack.push(cls + "."@ + "<init>"@), ..st1 };
                    let st3 = emit(
                        st2,
                        line,
                        src,
                        ActV::New { var, class: cls, params: args },
                        "Create new object: "@ + var,
                    );
                    let st4 = record_creation(st3, var, st3.steps.len() as usize);
                    let st5 = bind_params(st4, formals_of(dd), args, 0, 0);
                    let st6 = sim_block_from(ctx, st5, dd.children@[bidx], 0, (depth - 1) as nat);
                    SimV {
                        params: st4.params,
                        param_keys: st4.param_keys,
                        stack: st6.stack.drop_last(),
                        ..st6
                    }
                } else {
                    let st2 = emit(
                        st1,
                        line,
                        src,
                        ActV::New { var, class: cls, params: args },
                        "Create new object: "@ + var,
                    );
                    record_creation(st2, var, st2.steps.len() as usize)
                }
            } else if v.kind@ == "method_invocation"@ {
                let st1 = sim_invoke(ctx, st, n.children@[di].children@[vi], line, src, depth);
                emit(
                    st1,
                    line,
                    src,
                    ActV::Assign { var, ty: ty_decl, value: v.text@ },
                    "Assign value to variable: "@ + var,
                )
            } else {
                emit(
                    st,
                    line,
                    src,
                    ActV::Assign { var, ty: ty_decl, value: v.text@ },
                    "Assign value to variable: "@ + var,
                )
            }
        }
    }
}

/// Simulates one call: the call is recorded under the calling frame, the
/// receiver's use is noted, and when the target's body is locatable within
/// the depth bound the callee's frame is pushed before its step is
/// emitted, its parameters bound, its body walked, and the frame popped;
/// otherwise the call stands as one step.
pub open spec fn sim_invoke(
    ctx: CtxV,
    st: SimV,
    n: SyntaxNode,
    line: usize,
    src: Seq<char>,
    depth: nat,
) -> SimV
    decreases depth, n, 2nat, 0nat,
{
    let method = name_of(n);
    let (caller, target): (Option<Seq<char>>, Seq<char>) = match spec_child_by_field(n, "object"@) {
        Some(ob) => (Some(ob.text@), resolve_sim(ctx.anal, st, ob.text@)),
        None => (None, "unknown"@),
    };
    let args = args_of(n);
    let st1 = record_call(st, stack_top(st), target + "."@ + method);
    let decl = spec_find_member(ctx.root, target, method);
    let bidx = match decl {
        Some(d) => field_idx(d.children@, 0, "body"@),
        None => -1,
    };
    if decl is Some && bidx >= 0 && bidx < decl.unwrap().children@.len() && st1.stack.len()
        < max_depth() && depth > 0 {
        let d = decl.unwrap();
        let st2 = SimV { stack: st1.stack.push(target + "."@ + method), ..st1 };
        let st3 = emit(
            st2,
            line,
            src,
            ActV::Call { caller, method, target, params: args },
            "Call method: "@ + method,
        );
        let st4 = record_usage(st3, caller, st3.steps.len() as usize);
        let st5 = bind_params(st4, formals_of(d), args, 0, 0);
        let st6 = sim_block_from(ctx, st5, d.children@[bidx], 0, (depth - 1) as nat);
        SimV { params: st4.params, param_keys: st4.param_keys, stack: st6.stack.drop_last(), ..st6 }
    } else {
        let st2 = emit(
            st1,
            line,
            src,
            ActV::Call { caller, method, target, params: args },
            "Call method: "@ + method,
        );
        record_usage(st2, caller, st2.steps.len() as usize)
    }
}

/// Simulates an assignment: one on a `this`-qualified field is a field
/// mutation, computed exactly for the compound operators with the operand
/// resolved through the parameter bindings, and falling back to the raw
/// statement text; any other assignment is captured as text.
pub open spec fn sim_assign(ctx: CtxV, st: SimV, n: SyntaxNode, line: usize, src: Seq<char>) -> SimV {
    let li = field_idx(n.children@, 0, "left"@);
    let ri = field_idx(n.children@, 0, "right"@);
    if li < 0 || ri < 0 {
        st
    } else {
        let l = n.children@[li];
        let r = n.children@[ri];
        if is_this_field(l) {
            let fname = field_text(l, "field"@);
            let key = class_of_frame(stack_top(st)) + "."@ + fname;
            let old: Option<Seq<char>> = if st.fields.contains_key(key) {
                Some(st.fields[key])
            } else {
                None
            };
            let op = field_text(n, "operator"@);
            let newv = if op == "="@ {
                r.text@
            } else {
                let operand = if st.params.contains_key(r.text@) {
                    st.params[r.text@]
                } else {
                    r.text@
                };
                match old {
                    None => n.text@,
                    Some(cur) => match spec_compound(cur, op, operand) {
                        Some(v) => v,
                        None => n.text@,
                    },
                }
            };
            let st1 = SimV { fields: st.fields.insert(key, newv), ..st };
            emit(
                st1,
                line,
                src,
                ActV::Mutate { field: fname, old, new: newv },
                "Mutate field: "@ + fname,
            )
        } else {
            emit(
                st,
                line,
                src,
                ActV::Assign { var: l.text@, ty: "assigned"@, value: r.text@ },
                "Assign value to: "@ + l.text@,
            )
        }
    }
}

/// Simulates an `if`: exactly one branch step, taken, then the `then`
/// branch alone; the `else` branch is never walked.
pub open spec fn sim_if(ctx: CtxV, st: SimV, n: SyntaxNode, line: usize, src: Seq<char>, depth: nat)
    -> SimV
    decreases depth, n, 2nat, 0nat,
{
    let cond = field_text(n, "condition"@);
    let st1 = emit(
        st,
        line,
        src,
        ActV::Branch { cond, taken: true },
        "Evaluate condition: "@ + cond,
    );
    let ci = field_idx(n.children@, 0, "consequence"@);
    if 0 <= ci < n.children@.len() {
        sim_stmt(ctx, st1, n.children@[ci], depth)
    } else {
        st1
    }
}

/// Simulates a loop: one iteration step, then the body walked once.
pub open spec fn sim_loop(
    ctx: CtxV,
    st: SimV,
    n: SyntaxNode,
    line: usize,
    src: Seq<char>,
    depth: nat,
) -> SimV
    decreases depth, n, 2nat, 0nat,
{
    let cond = field_text(n, "condition"@);
    let st1 = emit(
        st,
        line,
        src,
        ActV::Loop { kind: n.kind@, cond, iter: 1 },
        "Enter loop with condition: "@ + cond,
    );
    let bi = field_idx(n.children@, 0, "body"@);
    if 0 <= bi < n.children@.len() {
        sim_stmt(ctx, st1, n.children@[bi], depth)
    } else {
        st1
    }
}

/// Simulates a return: returning a `this`-qualified field first records a
/// field access with the field's current simulated value, then the return
/// itself carries the raw returned text.
pub open spec fn sim_return(ctx: CtxV, st: SimV, n: SyntaxNode, line: usize, src: Seq<char>) -> SimV {
    let vi = named_idx(n.children@, 0);
    if vi >= 0 {
        let v = n.children@[vi];
        let st1 = if is_this_field(v) {
            let fname = field_text(v, "field"@);
            let key = class_of_frame(stack_top(st)) + "."@ + fname;
            let value: Option<Seq<char>> = if st.fields.contains_key(key) {
                Some(st.fields[key])
            } else {
                None
            };
            emit(st, line, src, ActV::Access { field: fname, value }, "Access field: "@ + fname)
        } else {
            st
        };
        emit(
            st1,
            line,
            src,
            ActV::Ret { method: stack_top(st1), value: Some(v.text@) },
            "Return from method"@,
        )
    } else {
        emit(
            st,
            line,
            src,
            ActV::Ret { method: stack_top(st), value: None },
            "Return from method"@,
        )
    }
}

/// One whole run from `main`: nothing without a static `main`; otherwise
/// the `main` frame is pushed and its body walked once.
pub open spec fn sim_run(ctx: CtxV) -> SimV {
    match spec_find_main(ctx.root) {
        None => init_sim(),
        Some(m) => {
            let bidx = field_idx(m.children@, 0, "body"@);
            let st = SimV { stack: seq!["main"@], ..init_sim() };
            if 0 <= bidx < m.children@.len() {
                let st1 = sim_block_from(ctx, st, m.children@[bidx], 0, (max_depth() - 1) as nat);
                SimV { stack: st1.stack.drop_last(), ..st1 }
            } else {
                SimV { stack: st.stack.drop_last(), ..st }
            }
        },
    }
}

/// The deepest call stack among the first `i` steps.
pub open spec fn spec_max_depth(steps: Seq<StepV>, i: int) -> usize
    decreases i,
{
    if i <= 0 {
        0
    } else {
        let prev = spec_max_depth(steps, i - 1);
        if steps[i - 1].stack.len() > prev {
            steps[i - 1].stack.len() as usize
        } else {
            prev
        }
    }
}

/// What every simulated statement leaves intact: the call stack value, the
/// steps already recorded, and — below the depth cap — the cap on every
/// step it adds.
pub open spec fn frame_ok(st: SimV, r: SimV) -> bool {
    &&& r.stack == st.stack
    &&& r.steps.len() >= st.steps.len()
    &&& (forall|j: int| 0 <= j < st.steps.len() ==> r.steps[j] == st.steps[j])
    &&& (st.stack.len() <= max_depth() ==> forall|j: int|
        st.steps.len() <= j < r.steps.len() ==> (#[trigger] r.steps[j]).stack.len() <= max_depth())
}

proof fn lemma_frame_trans(a: SimV, b: SimV, c: SimV)
    requires
        frame_ok(a, b),
        frame_ok(b, c),
    ensures
        frame_ok(a, c),
{
}

proof fn lemma_bind_frame(st: SimV, formals: Seq<SyntaxNode>, args: Seq<Seq<char>>, i: int, j: int)
    ensures
        bind_params(st, formals, args, i, j).steps == st.steps,
        bind_params(st, formals, args, i, j).stack == st.stack,
    decreases formals.len() - i,
{
    if 0 <= i < formals.len() {
        if formals[i].kind@ == "formal_parameter"@ {
            let pname = name_of(formals[i]);
            let st1 = if 0 <= j < args.len() && pname.len() > 0 {
                SimV {
                    params: st.params.insert(pname, args[j]),
                    param_keys: if st.params.contains_key(pname) {
                        st.param_keys
                    } else {
                        st.param_keys.push(pname)
                    },
                    ..st
                }
            } else {
                st
            };
            lemma_bind_frame(st1, formals, args, i + 1, j + 1);
        } else {
            lemma_bind_frame(st, formals, args, i + 1, j);
        }
    }
}

/// Law: a simulated statement never changes the call stack it entered
/// with, never rewrites a recorded step, and — the depth bound — every
/// step it records carries a call stack no deeper than the cap.
pub proof fn lemma_stmt_frame(ctx: CtxV, st: SimV, n: SyntaxNode, depth: nat)
    ensures
        frame_ok(st, sim_stmt(ctx, st, n, depth)),
    decreases depth, n, 3nat, 0nat,
{
    let line = spec_line(n);
    let src = spec_source_line(ctx.lines, line);
    if n.kind@ == "local_variable_declaration"@ {
        lemma_var_decl_frame(ctx, st, n, line, src, depth);
    } else if n.kind@ == "expression_statement"@ {
        if n.children@.len() > 0 {
            let c = n.children@[0];
            if c.kind@ == "method_invocation"@ {
                lemma_invoke_frame(ctx, st, c, line, src, depth);
            }
        }
    } else if n.kind@ == "if_statement"@ {
        lemma_if_frame(ctx, st, n, line, src, depth);
    } else if n.kind@ == "for_statement"@ || n.kind@ == "while_statement"@ || n.kind@
        == "enhanced_for_statement"@ {
        lemma_loop_frame(ctx, st, n, line, src, depth);
    } else if n.kind@ == "block"@ {
        lemma_block_frame(ctx, st, n, 0, depth);
    }
}

proof fn lemma_block_frame(ctx: CtxV, st: SimV, n: SyntaxNode, i: int, depth: nat)
    ensures
        frame_ok(st, sim_block_from(ctx, st, n, i, depth)),
    decreases depth, n, 1nat, n.children@.len() - i,
{
    if 0 <= i < n.children@.len() {
        if n.children@[i].named {
            lemma_stmt_frame(ctx, st, n.children@[i], depth);
            lemma_block_frame(ctx, sim_stmt(ctx, st, n.children@[i], depth), n, i + 1, depth);
            lemma_frame_trans(
                st,
                sim_stmt(ctx, st, n.children@[i], depth),
                sim_block_from(ctx, sim_stmt(ctx, st, n.children@[i], depth), n, i + 1, depth),
            );
        } else {
            lemma_block_frame(ctx, st, n, i + 1, depth);
        }
    }
}

proof fn lemma_var_decl_frame(
    ctx: CtxV,
    st: SimV,
    n: SyntaxNode,
    line: usize,
    src: Seq<char>,
    depth: nat,
)
    ensures
        frame_ok(st, sim_var_decl(ctx, st, n, line, src, depth)),
    decreases depth, n, 2nat, 0nat,
{
    let ty_decl = crate::analyzer::type_field_text(n);
    let di = kind_idx(n.children@, 0, "variable_declarator"@);
    if di < 0 || di >= n.children@.len() {
    } else {
        let d = n.children@[di];
        let var = name_of(d);
        let vi = field_idx(d.children@, 0, "value"@);
        if vi < 0 || vi >= d.children@.len() {
        } else {
            let v = d.children@[vi];
            if v.kind@ == "object_creation_expression"@ {
                let cls = match spec_child_by_field(v, "type"@) {
                    Some(t) => t.text@,
                    None => ty_decl,
                };
                let args = args_of(v);
                let st1 = record_active(st, var, cls);
                let decl = spec_find_member(ctx.root, cls, "<init>"@);
                let bidx = match decl {
                    Some(dd) => field_idx(dd.children@, 0, "body"@),
                    None => -1,
                };
                if decl is Some && bidx >= 0 && bidx < decl.unwrap().children@.len()
                    && st1.stack.len() < max_depth() && depth > 0 {
                    let dd = decl.unwrap();
                    let st2 = SimV { stack: st1.stack.push(cls + "."@ + "<init>"@), ..st1 };
                    let st3 = emit(
                        st2,
                        line,
                        src,
                        ActV::New { var, class: cls, params: args },
                        "Create new object: "@ + var,
                    );
                    let st4 = record_creation(st3, var, st3.steps.len() as usize);
                    let st5 = bind_params(st4, formals_of(dd), args, 0, 0);
                    lemma_bind_frame(st4, formals_of(dd), args, 0, 0);
                    let st6 = sim_block_from(ctx, st5, dd.children@[bidx], 0, (depth - 1) as nat);
                    lemma_block_frame(ctx, st5, dd.children@[bidx], 0, (depth - 1) as nat);
                    assert(st1.stack.push(cls + "."@ + "<init>"@).drop_last() =~= st1.stack);
                }
            } else if v.kind@ == "method_invocation"@ {
                lemma_invoke_frame(ctx, st, n.children@[di].children@[vi], line, src, depth);
            }
        }
    }
}

proof fn lemma_invoke_frame(
    ctx: CtxV,
    st: SimV,
    n: SyntaxNode,
    line: usize,
    src: Seq<char>,
    depth: nat,
)
    ensures
        frame_ok(st, sim_invoke(ctx, st, n, line, src, depth)),
    decreases depth, n, 2nat, 0nat,
{
    let method = name_of(n);
    let (caller, target): (Option<Seq<char>>, Seq<char>) = match spec_child_by_field(n, "object"@) {
        Some(ob) => (Some(ob.text@), resolve_sim(ctx.anal, st, ob.text@)),
        None => (None, "unknown"@),
    };
    let args = args_of(n);
    let st1 = record_call(st, stack_top(st), target + "."@ + method);
    let decl = spec_find_member(ctx.root, target, method);
    let bidx = match decl {
        Some(d) => field_idx(d.children@, 0, "body"@),
        None => -1,
    };
    if decl is Some && bidx >= 0 && bidx < decl.unwrap().children@.len() && st1.stack.len()
        < max_depth() && depth > 0 {
        let d = decl.unwrap();
        let st2 = SimV { stack: st1.stack.push(target + "."@ + method), ..st1 };
        let st3 = emit(
            st2,
            line,
            src,
            ActV::Call { caller, method, target, params: args },
            "Call method: "@ + method,
        );
        let st4 = record_usage(st3, caller, st3.steps.len() as usize);
        let st5 = bind_params(st4, formals_of(d), args, 0, 0);
        lemma_bind_frame(st4, formals_of(d), args, 0, 0);
        let st6 = sim_block_from(ctx, st5, d.children@[bidx], 0, (depth - 1) as nat);
        lemma_block_frame(ctx, st5, d.children@[bidx], 0, (depth - 1) as nat);
        assert(st1.stack.push(target + "."@ + method).drop_last() =~= st1.stack);
    }
}

proof fn lemma_if_frame(ctx: CtxV, st: SimV, n: SyntaxNode, line: usize, src: Seq<char>, depth: nat)
    ensures
        frame_ok(st, sim_if(ctx, st, n, line, src, depth)),
    decreases depth, n, 2nat, 0nat,
{
    let cond = field_text(n, "condition"@);
    let st1 = emit(st, line, src, ActV::Branch { cond, taken: true }, "Evaluate condition: "@ + cond);
    let ci = field_idx(n.children@, 0, "consequence"@);
    if 0 <= ci < n.children@.len() {
        lemma_stmt_frame(ctx, st1, n.children@[ci], depth);
        lemma_frame_trans(st, st1, sim_stmt(ctx, st1, n.children@[ci], depth));
    }
}

proof fn lemma_loop_frame(
    ctx: CtxV,
    st: SimV,
    n: SyntaxNode,
    line: usize,
    src: Seq<char>,
    depth: nat,
)
    ensures
        frame_ok(st, sim_loop(ctx, st, n, line, src, depth)),
    decreases depth, n, 2nat, 0nat,
{
    let cond = field_text(n, "condition"@);
    let st1 = emit(
        st,
        line,
        src,
        ActV::Loop { kind: n.kind@, cond, iter: 1 },
        "Enter loop with condition: "@ + cond,
    );
    let bi = field_idx(n.children@, 0, "body"@);
    if 0 <= bi < n.children@.len() {
        lemma_stmt_frame(ctx, st1, n.children@[bi], depth);
        lemma_frame_trans(st, st1, sim_stmt(ctx, st1, n.children@[bi], depth));
    }
}

proof fn lemma_max_depth_bound(steps: Seq<StepV>, i: int, bound: usize)
    requires
        forall|j: int| 0 <= j < i ==> (#[trigger] steps[j]).stack.len() <= bound,
    ensures
        spec_max_depth(steps, i) <= bound,
    decreases i,
{
    if i > 0 {
        lemma_max_depth_bound(steps, i - 1, bound);
    }
}

/// Law: the depth cap holds of every run — no recorded step carries a call
/// stack deeper than the cap, and the recorded maximum obeys it, whatever
/// the input program does.
pub proof fn lemma_depth_cap(ctx: CtxV)
    ensures
        forall|j: int|
            0 <= j < sim_run(ctx).steps.len() ==> (#[trigger] sim_run(ctx).steps[j]).stack.len()
                <= max_depth(),
        spec_max_depth(sim_run(ctx).steps, sim_run(ctx).steps.len() as int) <= max_depth(),
{
    match spec_find_main(ctx.root) {
        None => {
            lemma_max_depth_bound(sim_run(ctx).steps, sim_run(ctx).steps.len() as int, max_depth());
        },
        Some(m) => {
            let bidx = field_idx(m.children@, 0, "body"@);
            let st = SimV { stack: seq!["main"@], ..init_sim() };
            if 0 <= bidx < m.children@.len() {
                lemma_block_frame(ctx, st, m.children@[bidx], 0, (max_depth() - 1) as nat);
            }
            lemma_max_depth_bound(sim_run(ctx).steps, sim_run(ctx).steps.len() as int, max_depth());
        },
    }
}

/// Law: without a static `main` the run is empty — no steps and a zero
/// maximum stack depth.
pub proof fn lemma_no_main_empty(ctx: CtxV)
    requires
        spec_find_main(ctx.root) is None,
    ensures
        sim_run(ctx).steps.len() == 0,
        spec_max_depth(sim_run(ctx).steps, sim_run(ctx).steps.len() as int) == 0,
{
}

/// Law: an `if` statement records exactly one branch step of its own, the
/// branch marked taken, and everything after it comes from the `then`
/// branch alone — the `else` branch contributes nothing.
pub proof fn lemma_if_single_branch(
    ctx: CtxV,
    st: SimV,
    n: SyntaxNode,
    line: usize,
    src: Seq<char>,
    depth: nat,
)
    ensures
        ({
            let r = sim_if(ctx, st, n, line, src, depth);
            let cb = StepV {
                num: if st.steps.len() + 1 <= usize::MAX {
                    (st.steps.len() + 1) as usize
                } else {
                    0
                },
                line,
                src,
                act: ActV::Branch { cond: field_text(n, "condition"@), taken: true },
                stack: st.stack,
                active: st.active_keys,
                desc: "Evaluate condition: "@ + field_text(n, "condition"@),
            };
            let ci = field_idx(n.children@, 0, "consequence"@);
            &&& r.steps.len() > st.steps.len()
            &&& r.steps[st.steps.len() as int] == cb
            &&& (0 <= ci < n.children@.len() ==> r == sim_stmt(
                ctx,
                emit(st, line, src, cb.act, cb.desc),
                n.children@[ci],
                depth,
            ))
            &&& !(0 <= ci < n.children@.len()) ==> r == emit(st, line, src, cb.act, cb.desc)
        }),
{
    let cond = field_text(n, "condition"@);
    let st1 = emit(st, line, src, ActV::Branch { cond, taken: true }, "Evaluate condition: "@ + cond);
    let ci = field_idx(n.children@, 0, "consequence"@);
    if 0 <= ci < n.children@.len() {
        lemma_stmt_frame(ctx, st1, n.children@[ci], depth);
        assert(sim_if(ctx, st, n, line, src, depth).steps[st.steps.len() as int] == st1.steps[st.steps.len() as int]);
    }
}

/// The first child index filling field `f`, when one does.
fn field_index(n: &SyntaxNode, f: &str) -> (r: Option<usize>)
    ensures
        match r {
            Some(i) => i < n.children@.len() && field_idx(n.children@, 0, f@) == i,
            None => field_idx(n.children@, 0, f@) == -1,
        },
{
    let mut i: usize = 0;
    while i < n.children.len()
        invariant
            i <= n.children@.len(),
            field_idx(n.children@, 0, f@) == field_idx(n.children@, i as int, f@),
        decreases n.children@.len() - i,
    {
        if str_eq(n.children[i].field.as_str(), f) {
            return Some(i);
        }
        i = i + 1;
    }
    None
}

/// The first child index of kind `k`, when one does.
fn kind_index(n: &SyntaxNode, k: &str) -> (r: Option<usize>)
    ensures
        match r {
            Some(i) => i < n.children@.len() && kind_idx(n.children@, 0, k@) == i,
            None => kind_idx(n.children@, 0, k@) == -1,
        },
{
    let mut i: usize = 0;
    while i < n.children.len()
        invariant
            i <= n.children@.len(),
            kind_idx(n.children@, 0, k@) == kind_idx(n.children@, i as int, k@),
        decreases n.children@.len() - i,
    {
        if str_eq(n.children[i].kind.as_str(), k) {
            return Some(i);
        }
        i = i + 1;
    }
    None
}

/// The first named child index, when one exists.
fn named_index(n: &SyntaxNode) -> (r: Option<usize>)
    ensures
        match r {
            Some(i) => i < n.children@.len() && named_idx(n.children@, 0) == i,
            None => named_idx(n.children@, 0) == -1,
        },
{
    let mut i: usize = 0;
    while i < n.children.len()
        invariant
            i <= n.children@.len(),
            named_idx(n.children@, 0) == named_idx(n.children@, i as int),
        decreases n.children@.len() - i,
    {
        if n.children[i].named {
            return Some(i);
        }
        i = i + 1;
    }
    None
}

/// Fresh copies of the given strings.
fn clone_strings(v: &Vec<String>) -> (r: Vec<String>)
    ensures
        r@ == v@,
{
    let mut out: Vec<String> = Vec::new();
    let mut i: usize = 0;
    while i < v.len()
        invariant
            i <= v@.len(),
            out@ == v@.subrange(0, i as int),
        decreases v@.len() - i,
    {
        out.push(v[i].clone());
        i = i + 1;
        proof {
            assert(out@ =~= v@.subrange(0, i as int));
        }
    }
    proof {
        assert(v@.subrange(0, v@.len() as int) =~= v@);
    }
    out
}

/// A fresh copy of the given numbers.
fn clone_usizes(v: &Vec<usize>) -> (r: Vec<usize>)
    ensures
        r@ == v@,
{
    let mut out: Vec<usize> = Vec::new();
    let mut i: usize = 0;
    while i < v.len()
        invariant
            i <= v@.len(),
            out@ == v@.subrange(0, i as int),
        decreases v@.len() - i,
    {
        out.push(v[i]);
        i = i + 1;
        proof {
            assert(out@ =~= v@.subrange(0, i as int));
        }
    }
    proof {
        assert(v@.subrange(0, v@.len() as int) =~= v@);
    }
    out
}

/// A string-valued table as a map of views.
pub open spec fn str_map_view(d: Dict<String>) -> Map<Seq<char>, Seq<char>> {
    Map::new(
        |k: Seq<char>| spec_get(d, k) is Some,
        |k: Seq<char>| spec_get(d, k).unwrap()@,
    )
}

/// A string-list-valued table as a map of views.
pub open spec fn strs_map_view(d: Dict<Vec<String>>) -> Map<Seq<char>, Seq<Seq<char>>> {
    Map::new(
        |k: Seq<char>| spec_get(d, k) is Some,
        |k: Seq<char>| spec_get(d, k).unwrap()@.map_values(|s: String| s@),
    )
}

/// A number-list-valued table as a map.
pub open spec fn nums_map_view(d: Dict<Vec<usize>>) -> Map<Seq<char>, Seq<usize>> {
    Map::new(
        |k: Seq<char>| spec_get(d, k) is Some,
        |k: Seq<char>| spec_get(d, k).unwrap()@,
    )
}

/// The bounded single-path walker: one instance owns the static analysis
/// and accumulates one trace.
pub struct ExecutionAnalyzer {
    analysis_result: AnalysisResult,
    call_stack: Vec<String>,
    active_objects: Dict<String>,
    field_values: Dict<String>,
    param_bindings: Dict<String>,
    steps: Vec<ExecutionStep>,
    call_graph: Dict<Vec<String>>,
    object_lifecycle: Dict<Vec<usize>>,
    source_lines: Vec<String>,
}

impl ExecutionAnalyzer {
    /// Every table of the walker keeps its keys unique.
    pub closed spec fn wf(&self) -> bool {
        &&& dict_wf(self.active_objects)
        &&& dict_wf(self.field_values)
        &&& dict_wf(self.param_bindings)
        &&& dict_wf(self.call_graph)
        &&& dict_wf(self.object_lifecycle)
    }

    /// The walker's running state, as contracts see it.
    pub closed spec fn sim_view(&self) -> SimV {
        SimV {
            steps: self.steps@.map_values(|s: ExecutionStep| s@),
            stack: self.call_stack@.map_values(|s: String| s@),
            active: str_map_view(self.active_objects),
            active_keys: spec_keys(self.active_objects),
            fields: str_map_view(self.field_values),
            params: str_map_view(self.param_bindings),
            param_keys: spec_keys(self.param_bindings),
            graph: strs_map_view(self.call_graph),
            graph_keys: spec_keys(self.call_graph),
            life: nums_map_view(self.object_lifecycle),
            life_keys: spec_keys(self.object_lifecycle),
        }
    }

    /// What this run reads and never changes.
    pub closed spec fn ctx_of(&self, root: SyntaxNode) -> CtxV {
        CtxV {
            root,
            lines: self.source_lines@.map_values(|s: String| s@),
            anal: self.analysis_result@,
        }
    }

    /// The analysis the walker consults.
    pub closed spec fn spec_analysis_result(&self) -> AnalysisV {
        self.analysis_result@
    }

    /// A fresh walker over one completed static analysis.
    pub fn new(analysis_result: AnalysisResult) -> (r: ExecutionAnalyzer)
        ensures
            r.sim_view() == init_sim(),
            r.wf(),
            r.spec_analysis_result() == analysis_result@,
    {
        let r = ExecutionAnalyzer {
            analysis_result,
            call_stack: Vec::new(),
            active_objects: Dict::new(),
            field_values: Dict::new(),
            param_bindings: Dict::new(),
            steps: Vec::new(),
            call_graph: Dict::new(),
            object_lifecycle: Dict::new(),
            source_lines: Vec::new(),
        };
        proof {
            assert(r.sim_view() =~~= init_sim());
        }
        r
    }

    /// The trimmed source line `k`, one-based.
    fn get_source_line(&self, k: usize) -> (r: String)
        ensures
            r@ == spec_source_line(self.source_lines@.map_values(|s: String| s@), k),
    {
        if 1 <= k && k <= self.source_lines.len() {
            trim_str(self.source_lines[k - 1].as_str())
        } else {
            String::new()
        }
    }

    /// The top frame, or `unknown` outside any frame.
    fn stack_top(&self) -> (r: String)
        ensures
            r@ == stack_top(self.sim_view()),
    {
        if self.call_stack.len() > 0 {
            self.call_stack[self.call_stack.len() - 1].clone()
        } else {
            String::from_str("unknown")
        }
    }

    /// The class a receiver resolves to in the running state.
    fn resolve_object_class_enhanced(&self, name: &str) -> (r: String)
        ensures
            r@ == resolve_sim(self.analysis_result@, self.sim_view(), name@),
    {
        match self.active_objects.get(name) {
            Some(c) => {
                return c.clone();
            },
            None => {},
        }
        match self.analysis_result.type_inference.get(name) {
            Some(c) => {
                return c.clone();
            },
            None => {},
        }
        match self.analysis_result.object_registry.get(name) {
            Some(o) => {
                return o.class_name.clone();
            },
            None => {},
        }
        if starts_uppercase(name) {
            String::from_str(name)
        } else {
            String::from_str("unknown")
        }
    }

    /// Appends one step with the stack and active objects as they stand.
    fn add_execution_step(
        &mut self,
        line: usize,
        source_line: String,
        action: ExecutionAction,
        description: String,
    )
        requires
            old(self).wf(),
        ensures
            final(self).wf(),
            final(self).sim_view() == emit(
                old(self).sim_view(),
                line,
                source_line@,
                action@,
                description@,
            ),
            final(self).analysis_result == old(self).analysis_result,
            final(self).source_lines == old(self).source_lines,
    {
        let n = self.steps.len();
        let num: usize = if n == usize::MAX {
            0
        } else {
            n + 1
        };
        let step = ExecutionStep {
            step_number: num,
            line_number: line,
            source_line,
            action,
            call_stack: clone_strings(&self.call_stack),
            active_objects: self.active_objects.keys(),
            description,
        };
        let ghost prev = self.steps@.map_values(|s: ExecutionStep| s@);
        self.steps.push(step);
        proof {
            assert(self.steps@.map_values(|s: ExecutionStep| s@) =~= prev.push(step@));
            let tgt = emit(old(self).sim_view(), line, step.source_line@, step.action@, step.description@);
            assert(old(self).steps@.map_values(|s: ExecutionStep| s@).len() == old(
                self,
            ).steps@.len());
            assert(step@ =~~= tgt.steps.last());
            assert(self.sim_view().steps =~~= tgt.steps);
            assert(self.sim_view() =~~= tgt);
        }
    }
}

/// The call arguments of a node's `arguments` clause, as fresh strings.
fn extract_args(n: &SyntaxNode) -> (r: Vec<String>)
    ensures
        r@.map_values(|s: String| s@) == args_of(*n),
{
    let mut out: Vec<String> = Vec::new();
    proof {
        assert(out@.map_values(|s: String| s@) =~= Seq::<Seq<char>>::empty());
    }
    match n.child_by_field("arguments") {
        None => out,
        Some(a) => {
            let mut i: usize = 0;
            while i < a.children.len()
                invariant
                    i <= a.children@.len(),
                    spec_args(a.children@, 0) == out@.map_values(|s: String| s@) + spec_args(
                        a.children@,
                        i as int,
                    ),
                decreases a.children@.len() - i,
            {
                let ghost prev = out@.map_values(|s: String| s@);
                if a.children[i].named {
                    out.push(a.children[i].text.clone());
                    proof {
                        assert(out@.map_values(|s: String| s@) =~= prev.push(
                            a.children@[i as int].text@,
                        ));
                        assert(prev + spec_args(a.children@, i as int) =~= prev.push(
                            a.children@[i as int].text@,
                        ) + spec_args(a.children@, i + 1));
                    }
                }
                i = i + 1;
            }
            proof {
                assert(out@.map_values(|s: String| s@) + spec_args(
                    a.children@,
                    a.children@.len() as int,
                ) =~= out@.map_values(|s: String| s@));
            }
            out
        },
    }
}

/// The class part of a frame name: everything before the first dot.
fn class_of_frame_exec(f: &str) -> (r: String)
    ensures
        r@ == class_of_frame(f@),
{
    let v = crate::strings::to_chars(f);
    let mut i: usize = 0;
    while i < v.len()
        invariant
            i <= v@.len(),
            v@ == f@,
            class_of_frame(f@) == class_of_frame_from(f@, i as int),
            forall|j: int| 0 <= j < i ==> f@[j] != '.',
        decreases v@.len() - i,
    {
        if v[i] == '.' {
            let mut out: Vec<char> = Vec::new();
            let mut j: usize = 0;
            while j < i
                invariant
                    j <= i <= v@.len(),
                    v@ == f@,
                    out@ == f@.subrange(0, j as int),
                decreases i - j,
            {
                out.push(v[j]);
                j = j + 1;
                proof {
                    assert(out@ =~= f@.subrange(0, j as int));
                }
            }
            return crate::strings::chars_to_string(&out);
        }
        i = i + 1;
    }
    String::from_str(f)
}

/// The declaration node of `cls.member`: the member-body lookup the
/// walker steps through, found by a top-level class scan of the tree it
/// holds whole, in place of a byte-span index.
pub fn find_member<'a>(root: &'a SyntaxNode, cls: &str, member: &str) -> (r: Option<&'a SyntaxNode>)
    ensures
        match r {
            Some(m) => spec_find_member(*root, cls@, member@) == Some(*m),
            None => spec_find_member(*root, cls@, member@) is None,
        },
{
    proof {
        reveal_strlit("method_declaration");
        reveal_strlit("constructor_declaration");
    }
    let mut i: usize = 0;
    while i < root.children.len()
        invariant
            i <= root.children@.len(),
            scan_classes(root.children@, 0, cls@, member@) == scan_classes(
                root.children@,
                i as int,
                cls@,
                member@,
            ),
        decreases root.children@.len() - i,
    {
        let c = &root.children[i];
        let is_class = c.is_kind("class_declaration") || c.is_kind("interface_declaration");
        if is_class {
            let cname = crate::analyzer::name_text(c);
            if str_eq(cname.as_str(), cls) {
                match c.child_by_field("body") {
                    Some(b) => {
                        let mut j: usize = 0;
                        while j < b.children.len()
                            invariant
                                j <= b.children@.len(),
                                scan_members(b.children@, 0, member@) == scan_members(
                                    b.children@,
                                    j as int,
                                    member@,
                                ),
                            decreases b.children@.len() - j,
                        {
                            let m = &b.children[j];
                            if m.is_kind("method_declaration") {
                                let mname = crate::analyzer::name_text(m);
                                if str_eq(mname.as_str(), member) {
                                    return Some(m);
                                }
                            } else if m.is_kind("constructor_declaration") && str_eq(
                                member,
                                "<init>",
                            ) {
                                return Some(m);
                            }
                            proof {
                                reveal_strlit("method_declaration");
                                reveal_strlit("constructor_declaration");
                                assert(("method_declaration"@).len() == 18);
                                assert(("constructor_declaration"@).len() == 23);
                                assert(!(b.children@[j as int].kind@ == "method_declaration"@
                                    && name_of(b.children@[j as int]) == member@));
                                assert(!(b.children@[j as int].kind@
                                    == "constructor_declaration"@ && member@ == "<init>"@));
                                assert(scan_members(b.children@, j as int, member@)
                                    == scan_members(b.children@, j as int + 1, member@));
                            }
                            j = j + 1;
                        }
                    },
                    None => {},
                }
            }
        }
        i = i + 1;
    }
    None
}

/// The first static `main` in a depth-first walk.
fn find_main_exec<'a>(n: &'a SyntaxNode) -> (r: Option<&'a SyntaxNode>)
    ensures
        match r {
            Some(m) => spec_find_main(*n) == Some(*m),
            None => spec_find_main(*n) is None,
        },
    decreases *n,
{
    if n.is_kind("method_declaration") {
        let nm = crate::analyzer::name_text(n);
        if str_eq(nm.as_str(), "main") && crate::analyzer::has_modifier(n, "static") {
            return Some(n);
        }
    }
    let mut i: usize = 0;
    while i < n.children.len()
        invariant
            i <= n.children@.len(),
            scan_main(n.children@, 0) == scan_main(n.children@, i as int),
        decreases n.children@.len() - i,
    {
        match find_main_exec(&n.children[i]) {
            Some(m) => {
                return Some(m);
            },
            None => {},
        }
        i = i + 1;
    }
    None
}

impl ExecutionAnalyzer {
    /// Records one call under the calling frame.
    fn record_call_exec(&mut self, caller: String, callee: String)
        requires
            old(self).wf(),
        ensures
            final(self).wf(),
            final(self).sim_view() == record_call(old(self).sim_view(), caller@, callee@),
            final(self).analysis_result == old(self).analysis_result,
            final(self).source_lines == old(self).source_lines,
    {
        let ghost ck = caller@;
        let ghost cv = callee@;
        let prev: Vec<String> = match self.call_graph.get(caller.as_str()) {
            Some(v) => clone_strings(v),
            None => Vec::new(),
        };
        let ghost prevv = prev@.map_values(|s: String| s@);
        proof {
            assert(prevv =~= if old(self).sim_view().graph.contains_key(ck) {
                old(self).sim_view().graph[ck]
            } else {
                Seq::<Seq<char>>::empty()
            });
        }
        let mut list = prev;
        list.push(callee);
        proof {
            assert(list@.map_values(|s: String| s@) =~= prevv.push(cv));
        }
        self.call_graph.insert(caller, list);
        proof {
            let tgt = record_call(old(self).sim_view(), ck, cv);
            assert(self.sim_view().graph =~= tgt.graph);
            assert(self.sim_view().graph_keys =~= tgt.graph_keys);
            assert(self.sim_view() =~~= tgt);
        }
    }

    /// Starts an object's life at a step number.
    fn record_creation_exec(&mut self, obj: String, num: usize)
        requires
            old(self).wf(),
        ensures
            final(self).wf(),
            final(self).sim_view() == record_creation(old(self).sim_view(), obj@, num),
            final(self).analysis_result == old(self).analysis_result,
            final(self).source_lines == old(self).source_lines,
    {
        let ghost ok = obj@;
        let prev: Vec<usize> = match self.object_lifecycle.get(obj.as_str()) {
            Some(v) => clone_usizes(v),
            None => Vec::new(),
        };
        proof {
            assert(prev@ =~= if old(self).sim_view().life.contains_key(ok) {
                old(self).sim_view().life[ok]
            } else {
                Seq::<usize>::empty()
            });
        }
        let mut list = prev;
        list.push(num);
        self.object_lifecycle.insert(obj, list);
        proof {
            let tgt = record_creation(old(self).sim_view(), ok, num);
            assert(self.sim_view().life =~= tgt.life);
            assert(self.sim_view().life_keys =~= tgt.life_keys);
            assert(self.sim_view() =~~= tgt);
        }
    }

    /// Appends a use to an object's life, if its life has begun.
    fn record_usage_exec(&mut self, caller: &Option<String>, num: usize)
        requires
            old(self).wf(),
        ensures
            final(self).wf(),
            final(self).sim_view() == record_usage(
                old(self).sim_view(),
                match *caller {
                    Some(c) => Some(c@),
                    None => None,
                },
                num,
            ),
            final(self).analysis_result == old(self).analysis_result,
            final(self).source_lines == old(self).source_lines,
    {
        match caller {
            None => {},
            Some(obj) => {
                let ghost ok = obj@;
                match self.object_lifecycle.get(obj.as_str()) {
                    None => {},
                    Some(v) => {
                        let mut list = clone_usizes(v);
                        list.push(num);
                        self.object_lifecycle.insert(obj.clone(), list);
                        proof {
                            let tgt = record_usage(old(self).sim_view(), Some(ok), num);
                            assert(self.sim_view().life =~= tgt.life);
                            assert(self.sim_view().life_keys =~= tgt.life_keys);
                            assert(self.sim_view() =~~= tgt);
                        }
                    },
                }
            },
        }
    }

    /// Marks a variable as a live object of a class.
    fn record_active_exec(&mut self, var: String, cls: String)
        requires
            old(self).wf(),
        ensures
            final(self).wf(),
            final(self).sim_view() == record_active(old(self).sim_view(), var@, cls@),
            final(self).analysis_result == old(self).analysis_result,
            final(self).source_lines == old(self).source_lines,
    {
        let ghost vk = var@;
        let ghost cvv = cls@;
        self.active_objects.insert(var, cls);
        proof {
            let tgt = record_active(old(self).sim_view(), vk, cvv);
            assert(self.sim_view().active =~= tgt.active);
            assert(self.sim_view().active_keys =~= tgt.active_keys);
            assert(self.sim_view() =~~= tgt);
        }
    }

    /// Binds a callee's formals, positionally, from the call-site texts.
    fn bind_parameters(&mut self, decl: &SyntaxNode, args: &Vec<String>)
        requires
            old(self).wf(),
        ensures
            final(self).wf(),
            final(self).sim_view() == bind_params(
                old(self).sim_view(),
                formals_of(*decl),
                args@.map_values(|s: String| s@),
                0,
                0,
            ),
            final(self).analysis_result == old(self).analysis_result,
            final(self).source_lines == old(self).source_lines,
    {
        let ghost argv = args@.map_values(|s: String| s@);
        match decl.child_by_field("parameters") {
            None => {},
            Some(ps) => {
                let mut i: usize = 0;
                let mut j: usize = 0;
                while i < ps.children.len()
                    invariant
                        i <= ps.children@.len(),
                        j <= i,
                        self.wf(),
                        self.analysis_result == old(self).analysis_result,
                        self.source_lines == old(self).source_lines,
                        argv == args@.map_values(|s: String| s@),
                        bind_params(old(self).sim_view(), ps.children@, argv, 0, 0) == bind_params(
                            self.sim_view(),
                            ps.children@,
                            argv,
                            i as int,
                            j as int,
                        ),
                    decreases ps.children@.len() - i,
                {
                    let c = &ps.children[i];
                    if c.is_kind("formal_parameter") {
                        let pname = crate::analyzer::name_text(c);
                        let ghost pk = pname@;
                        let ghost pre = self.sim_view();
                        if j < args.len() && !pname.as_str().is_empty() {
                            self.param_bindings.insert(pname, args[j].clone());
                            proof {
                                let tgt = SimV {
                                    params: pre.params.insert(pk, argv[j as int]),
                                    param_keys: if pre.params.contains_key(pk) {
                                        pre.param_keys
                                    } else {
                                        pre.param_keys.push(pk)
                                    },
                                    ..pre
                                };
                                assert(self.sim_view().params =~= tgt.params);
                                assert(self.sim_view().param_keys =~= tgt.param_keys);
                                assert(self.sim_view() =~~= tgt);
                            }
                        }
                        j = j + 1;
                    }
                    i = i + 1;
                }
            },
        }
    }
}

impl ExecutionAnalyzer {
    /// Walks the named statements of a block in order.
    fn analyze_block(&mut self, root: &SyntaxNode, n: &SyntaxNode, depth: usize)
        requires
            old(self).wf(),
        ensures
            final(self).wf(),
            final(self).sim_view() == sim_block_from(
                old(self).ctx_of(*root),
                old(self).sim_view(),
                *n,
                0,
                depth as nat,
            ),
            final(self).analysis_result == old(self).analysis_result,
            final(self).source_lines == old(self).source_lines,
        decreases depth, *n, 1nat, 0nat,
    {
        let ghost ctx = old(self).ctx_of(*root);
        let ghost st0 = old(self).sim_view();
        let mut i: usize = 0;
        while i < n.children.len()
            invariant
                i <= n.children@.len(),
                self.wf(),
                self.analysis_result == old(self).analysis_result,
                self.source_lines == old(self).source_lines,
                sim_block_from(ctx, st0, *n, 0, depth as nat) == sim_block_from(
                    ctx,
                    self.sim_view(),
                    *n,
                    i as int,
                    depth as nat,
                ),
            decreases n.children@.len() - i,
        {
            let ghost prev = self.sim_view();
            if n.children[i].named {
                self.analyze_statement(root, &n.children[i], depth);
                proof {
                    assert(self.ctx_of(*root) == ctx);
                    assert(sim_block_from(ctx, prev, *n, i as int, depth as nat)
                        == sim_block_from(ctx, self.sim_view(), *n, i + 1, depth as nat));
                }
            } else {
                proof {
                    assert(sim_block_from(ctx, prev, *n, i as int, depth as nat)
                        == sim_block_from(ctx, self.sim_view(), *n, i + 1, depth as nat));
                }
            }
            i = i + 1;
        }
    }

    /// Dispatches one statement by its kind.
    fn analyze_statement(&mut self, root: &SyntaxNode, n: &SyntaxNode, depth: usize)
        requires
            old(self).wf(),
        ensures
            final(self).wf(),
            final(self).sim_view() == sim_stmt(
                old(self).ctx_of(*root),
                old(self).sim_view(),
                *n,
                depth as nat,
            ),
            final(self).analysis_result == old(self).analysis_result,
            final(self).source_lines == old(self).source_lines,
        decreases depth, *n, 3nat, 0nat,
    {
        let line = n.line();
        let src = self.get_source_line(line);
        if n.is_kind("local_variable_declaration") {
            self.analyze_variable_declaration(root, n, line, src, depth);
        } else if n.is_kind("expression_statement") {
            if n.children.len() > 0 {
                if n.children[0].is_kind("method_invocation") {
                    self.analyze_method_invocation(root, &n.children[0], line, src, depth);
                } else if n.children[0].is_kind("assignment_expression") {
                    self.analyze_assignment(&n.children[0], line, src);
                }
            }
        } else if n.is_kind("if_statement") {
            self.analyze_if_statement(root, n, line, src, depth);
        } else if n.is_kind("for_statement") || n.is_kind("while_statement") || n.is_kind(
            "enhanced_for_statement",
        ) {
            self.analyze_loop_statement(root, n, line, src, depth);
        } else if n.is_kind("return_statement") {
            self.analyze_return_statement(n, line, src);
        } else if n.is_kind("block") {
            self.analyze_block(root, n, depth);
        } else if n.children.len() == 0 {
            let mut d = String::from_str("Execute statement: ");
            d.append(n.kind.as_str());
            self.add_execution_step(
                line,
                src,
                ExecutionAction::VariableAssignment {
                    variable_name: String::from_str("unknown"),
                    value_type: String::from_str("statement"),
                    value: n.text.clone(),
                },
                d,
            );
        }
    }

    /// Simulates a local declaration, stepping into a locatable
    /// constructor within the depth bound.
    fn analyze_variable_declaration(
        &mut self,
        root: &SyntaxNode,
        n: &SyntaxNode,
        line: usize,
        src: String,
        depth: usize,
    )
        requires
            old(self).wf(),
        ensures
            final(self).wf(),
            final(self).sim_view() == sim_var_decl(
                old(self).ctx_of(*root),
                old(self).sim_view(),
                *n,
                line,
                src@,
                depth as nat,
            ),
            final(self).analysis_result == old(self).analysis_result,
            final(self).source_lines == old(self).source_lines,
        decreases depth, *n, 2nat, 0nat,
    {
        let ty_decl = crate::analyzer::type_text(n);
        let di = match kind_index(n, "variable_declarator") {
            Some(i) => i,
            None => {
                return ;
            },
        };
        let d = &n.children[di];
        let var = crate::analyzer::name_text(d);
        let vi = match field_index(d, "value") {
            Some(i) => i,
            None => {
                if !var.as_str().is_empty() {
                    let mut desc = String::from_str("Declare variable: ");
                    desc.append(var.as_str());
                    self.add_execution_step(
                        line,
                        src,
                        ExecutionAction::VariableAssignment {
                            variable_name: var,
                            value_type: ty_decl,
                            value: String::from_str("declared"),
                        },
                        desc,
                    );
                }
                return ;
            },
        };
        let v = &d.children[vi];
        if v.is_kind("object_creation_expression") {
            let cls: String = match v.child_by_field("type") {
                Some(t) => t.text.clone(),
                None => ty_decl,
            };
            let args = extract_args(v);
            self.record_active_exec(var.clone(), cls.clone());
            let mut desc = String::from_str("Create new object: ");
            desc.append(var.as_str());
            let mut stepped = false;
            match find_member(root, cls.as_str(), "<init>") {
                Some(dd) => {
                    match field_index(dd, "body") {
                        Some(bi) => {
                            if self.call_stack.len() < 10 && depth > 0 {
                                let mut qual = cls.clone();
                                qual.append(".");
                                qual.append("<init>");
                                let ghost before_push = self.sim_view();
                                self.call_stack.push(qual);
                                proof {
                                    assert(self.sim_view() =~~= SimV {
                                        stack: before_push.stack.push(cls@ + "."@ + "<init>"@),
                                        ..before_push
                                    });
                                }
                                self.add_execution_step(
                                    line,
                                    src.clone(),
                                    ExecutionAction::ObjectCreation {
                                        variable_name: var.clone(),
                                        class_name: cls.clone(),
                                        constructor_params: clone_strings(&args),
                                    },
                                    desc.clone(),
                                );
                                let num = self.steps.len();
                                self.record_creation_exec(var.clone(), num);
                                let ghost st4 = self.sim_view();
                                let saved = self.param_bindings.duplicate();
                                self.bind_parameters(dd, &args);
                                let ghost st5 = self.sim_view();
                                self.analyze_block(root, &dd.children[bi], depth - 1);
                                proof {
                                    lemma_bind_frame(
                                        st4,
                                        formals_of(*dd),
                                        args@.map_values(|s: String| s@),
                                        0,
                                        0,
                                    );
                                    lemma_block_frame(
                                        old(self).ctx_of(*root),
                                        st5,
                                        dd.children@[bi as int],
                                        0,
                                        (depth - 1) as nat,
                                    );
                                }
                                let ghost before_restore = self.sim_view();
                                self.param_bindings = saved;
                                proof {
                                    assert(str_map_view(self.param_bindings)
                                        =~= st4.params);
                                    assert(spec_keys(self.param_bindings) =~= st4.param_keys);
                                }
                                self.call_stack.pop();
                                stepped = true;
                                proof {
                                    assert(self.sim_view() =~~= SimV {
                                        params: st4.params,
                                        param_keys: st4.param_keys,
                                        stack: before_restore.stack.drop_last(),
                                        ..before_restore
                                    });
                                }
                            }
                        },
                        None => {},
                    }
                },
                None => {},
            }
            if !stepped {
                self.add_execution_step(
                    line,
                    src,
                    ExecutionAction::ObjectCreation {
                        variable_name: var.clone(),
                        class_name: cls.clone(),
                        constructor_params: clone_strings(&args),
                    },
                    desc,
                );
                let num = self.steps.len();
                self.record_creation_exec(var.clone(), num);
            }
        } else if v.is_kind("method_invocation") {
            self.analyze_method_invocation(root, &d.children[vi], line, src.clone(), depth);
            let mut desc = String::from_str("Assign value to variable: ");
            desc.append(var.as_str());
            self.add_execution_step(
                line,
                src,
                ExecutionAction::VariableAssignment {
                    variable_name: var,
                    value_type: ty_decl,
                    value: v.text.clone(),
                },
                desc,
            );
        } else {
            let mut desc = String::from_str("Assign value to variable: ");
            desc.append(var.as_str());
            self.add_execution_step(
                line,
                src,
                ExecutionAction::VariableAssignment {
                    variable_name: var,
                    value_type: ty_decl,
                    value: v.text.clone(),
                },
                desc,
            );
        }
    }

    /// Simulates one call, stepping into a locatable body within the
    /// depth bound.
    fn analyze_method_invocation(
        &mut self,
        root: &SyntaxNode,
        n: &SyntaxNode,
        line: usize,
        src: String,
        depth: usize,
    )
        requires
            old(self).wf(),
        ensures
            final(self).wf(),
            final(self).sim_view() == sim_invoke(
                old(self).ctx_of(*root),
                old(self).sim_view(),
                *n,
                line,
                src@,
                depth as nat,
            ),
            final(self).analysis_result == old(self).analysis_result,
            final(self).source_lines == old(self).source_lines,
        decreases depth, *n, 2nat, 0nat,
    {
        let method = crate::analyzer::name_text(n);
        let (caller, target): (Option<String>, String) = match n.child_by_field("object") {
            Some(ob) => {
                let cn = ob.text.clone();
                let t = self.resolve_object_class_enhanced(cn.as_str());
                (Some(cn), t)
            },
            None => (None, String::from_str("unknown")),
        };
        let args = extract_args(n);
        let top = self.stack_top();
        let callee = crate::analyzer::qualify(target.as_str(), method.as_str());
        self.record_call_exec(top, callee.clone());
        let caller_act: Option<String> = match &caller {
            Some(c) => Some(c.clone()),
            None => None,
        };
        let mut desc = String::from_str("Call method: ");
        desc.append(method.as_str());
        let mut stepped = false;
        match find_member(root, target.as_str(), method.as_str()) {
            Some(d) => {
                match field_index(d, "body") {
                    Some(bi) => {
                        if self.call_stack.len() < 10 && depth > 0 {
                            let ghost before_push = self.sim_view();
                            self.call_stack.push(callee);
                            proof {
                                assert(self.sim_view() =~~= SimV {
                                    stack: before_push.stack.push(target@ + "."@ + method@),
                                    ..before_push
                                });
                            }
                            let caller_act2: Option<String> = match &caller {
                                Some(c) => Some(c.clone()),
                                None => None,
                            };
                            self.add_execution_step(
                                line,
                                src.clone(),
                                ExecutionAction::MethodCall {
                                    caller: caller_act2,
                                    method_name: method.clone(),
                                    target_class: target.clone(),
                                    parameters: clone_strings(&args),
                                },
                                desc.clone(),
                            );
                            let num = self.steps.len();
                            self.record_usage_exec(&caller, num);
                            let ghost st4 = self.sim_view();
                            let saved = self.param_bindings.duplicate();
                            self.bind_parameters(d, &args);
                            let ghost st5 = self.sim_view();
                            self.analyze_block(root, &d.children[bi], depth - 1);
                            proof {
                                lemma_bind_frame(
                                    st4,
                                    formals_of(*d),
                                    args@.map_values(|s: String| s@),
                                    0,
                                    0,
                                );
                                lemma_block_frame(
                                    old(self).ctx_of(*root),
                                    st5,
                                    d.children@[bi as int],
                                    0,
                                    (depth - 1) as nat,
                                );
                            }
                            let ghost before_restore = self.sim_view();
                            self.param_bindings = saved;
                            proof {
                                assert(str_map_view(self.param_bindings) =~= st4.params);
                                assert(spec_keys(self.param_bindings) =~= st4.param_keys);
                            }
                            self.call_stack.pop();
                            stepped = true;
                            proof {
                                assert(self.sim_view() =~~= SimV {
                                    params: st4.params,
                                    param_keys: st4.param_keys,
                                    stack: before_restore.stack.drop_last(),
                                    ..before_restore
                                });
                            }
                        }
                    },
                    None => {},
                }
            },
            None => {},
        }
        if !stepped {
            self.add_execution_step(
                line,
                src,
                ExecutionAction::MethodCall {
                    caller: caller_act,
                    method_name: method.clone(),
                    target_class: target.clone(),
                    parameters: clone_strings(&args),
                },
                desc,
            );
            let num = self.steps.len();
            self.record_usage_exec(&caller, num);
        }
    }
}

impl ExecutionAnalyzer {
    /// Simulates an assignment; one on a `this`-qualified field mutates
    /// the class's simulated field slot.
    fn analyze_assignment(&mut self, n: &SyntaxNode, line: usize, src: String)
        requires
            old(self).wf(),
        ensures
            final(self).wf(),
            final(self).sim_view() == sim_assign(
                old(self).ctx_of(*n),
                old(self).sim_view(),
                *n,
                line,
                src@,
            ),
            final(self).analysis_result == old(self).analysis_result,
            final(self).source_lines == old(self).source_lines,
    {
        let li = match field_index(n, "left") {
            Some(i) => i,
            None => {
                return ;
            },
        };
        let ri = match field_index(n, "right") {
            Some(i) => i,
            None => {
                return ;
            },
        };
        let l = &n.children[li];
        let r = &n.children[ri];
        let this_field = l.is_kind("field_access") && (match l.child_by_field("object") {
            Some(o) => str_eq(o.text.as_str(), "this"),
            None => false,
        });
        if this_field {
            let fname: String = match l.child_by_field("field") {
                Some(f) => f.text.clone(),
                None => String::new(),
            };
            let frame = self.stack_top();
            let clspart = class_of_frame_exec(frame.as_str());
            let key = crate::analyzer::qualify(clspart.as_str(), fname.as_str());
            let old_val: Option<String> = match self.field_values.get(key.as_str()) {
                Some(v) => Some(v.clone()),
                None => None,
            };
            let op: String = match n.child_by_field("operator") {
                Some(o) => o.text.clone(),
                None => String::new(),
            };
            let newv: String = if str_eq(op.as_str(), "=") {
                r.text.clone()
            } else {
                let rtext = r.text.clone();
                let operand: String = match self.param_bindings.get(rtext.as_str()) {
                    Some(b) => b.clone(),
                    None => rtext,
                };
                match &old_val {
                    None => n.text.clone(),
                    Some(cur) => match crate::numeric::compute_compound(
                        cur.as_str(),
                        op.as_str(),
                        operand.as_str(),
                    ) {
                        Some(v) => v,
                        None => n.text.clone(),
                    },
                }
            };
            let ghost pre = self.sim_view();
            let ghost keyv = key@;
            let ghost newvv = newv@;
            self.field_values.insert(key, newv.clone());
            proof {
                assert(self.sim_view().fields =~= pre.fields.insert(keyv, newvv));
                assert(self.sim_view() =~~= SimV { fields: pre.fields.insert(keyv, newvv), ..pre });
            }
            let old_act: Option<String> = match &old_val {
                Some(v) => Some(v.clone()),
                None => None,
            };
            let mut desc = String::from_str("Mutate field: ");
            desc.append(fname.as_str());
            self.add_execution_step(
                line,
                src,
                ExecutionAction::FieldMutation {
                    field_name: fname,
                    old_value: old_act,
                    new_value: newv,
                },
                desc,
            );
        } else {
            let mut desc = String::from_str("Assign value to: ");
            desc.append(l.text.as_str());
            self.add_execution_step(
                line,
                src,
                ExecutionAction::VariableAssignment {
                    variable_name: l.text.clone(),
                    value_type: String::from_str("assigned"),
                    value: r.text.clone(),
                },
                desc,
            );
        }
    }

    /// Simulates an `if`: one taken branch step, then the `then` branch.
    fn analyze_if_statement(
        &mut self,
        root: &SyntaxNode,
        n: &SyntaxNode,
        line: usize,
        src: String,
        depth: usize,
    )
        requires
            old(self).wf(),
        ensures
            final(self).wf(),
            final(self).sim_view() == sim_if(
                old(self).ctx_of(*root),
                old(self).sim_view(),
                *n,
                line,
                src@,
                depth as nat,
            ),
            final(self).analysis_result == old(self).analysis_result,
            final(self).source_lines == old(self).source_lines,
        decreases depth, *n, 2nat, 0nat,
    {
        let cond: String = match n.child_by_field("condition") {
            Some(c) => c.text.clone(),
            None => String::new(),
        };
        let mut desc = String::from_str("Evaluate condition: ");
        desc.append(cond.as_str());
        self.add_execution_step(
            line,
            src,
            ExecutionAction::ConditionalBranch { condition: cond, branch_taken: true },
            desc,
        );
        match field_index(n, "consequence") {
            Some(ci) => {
                self.analyze_statement(root, &n.children[ci], depth);
            },
            None => {},
        }
    }

    /// Simulates a loop: one iteration step, then the body once.
    fn analyze_loop_statement(
        &mut self,
        root: &SyntaxNode,
        n: &SyntaxNode,
        line: usize,
        src: String,
        depth: usize,
    )
        requires
            old(self).wf(),
        ensures
            final(self).wf(),
            final(self).sim_view() == sim_loop(
                old(self).ctx_of(*root),
                old(self).sim_view(),
                *n,
                line,
                src@,
                depth as nat,
            ),
            final(self).analysis_result == old(self).analysis_result,
            final(self).source_lines == old(self).source_lines,
        decreases depth, *n, 2nat, 0nat,
    {
        let cond: String = match n.child_by_field("condition") {
            Some(c) => c.text.clone(),
            None => String::new(),
        };
        let mut desc = String::from_str("Enter loop with condition: ");
        desc.append(cond.as_str());
        self.add_execution_step(
            line,
            src,
            ExecutionAction::LoopIteration {
                loop_type: n.kind.clone(),
                condition: cond,
                iteration: 1,
            },
            desc,
        );
        match field_index(n, "body") {
            Some(bi) => {
                self.analyze_statement(root, &n.children[bi], depth);
            },
            None => {},
        }
    }

    /// Simulates a return; returning a `this`-qualified field records the
    /// field's simulated value first.
    fn analyze_return_statement(&mut self, n: &SyntaxNode, line: usize, src: String)
        requires
            old(self).wf(),
        ensures
            final(self).wf(),
            final(self).sim_view() == sim_return(
                old(self).ctx_of(*n),
                old(self).sim_view(),
                *n,
                line,
                src@,
            ),
            final(self).analysis_result == old(self).analysis_result,
            final(self).source_lines == old(self).source_lines,
    {
        match named_index(n) {
            Some(vi) => {
                let v = &n.children[vi];
                let this_field = v.is_kind("field_access") && (match v.child_by_field("object") {
                    Some(o) => str_eq(o.text.as_str(), "this"),
                    None => false,
                });
                if this_field {
                    let fname: String = match v.child_by_field("field") {
                        Some(f) => f.text.clone(),
                        None => String::new(),
                    };
                    let frame = self.stack_top();
                    let clspart = class_of_frame_exec(frame.as_str());
                    let key = crate::analyzer::qualify(clspart.as_str(), fname.as_str());
                    let value: Option<String> = match self.field_values.get(key.as_str()) {
                        Some(x) => Some(x.clone()),
                        None => None,
                    };
                    let mut desc = String::from_str("Access field: ");
                    desc.append(fname.as_str());
                    self.add_execution_step(
                        line,
                        src.clone(),
                        ExecutionAction::FieldAccess { field_name: fname, value },
                        desc,
                    );
                }
                let method = self.stack_top();
                self.add_execution_step(
                    line,
                    src,
                    ExecutionAction::MethodReturn {
                        method_name: method,
                        return_value: Some(v.text.clone()),
                    },
                    String::from_str("Return from method"),
                );
            },
            None => {
                let method = self.stack_top();
                self.add_execution_step(
                    line,
                    src,
                    ExecutionAction::MethodReturn { method_name: method, return_value: None },
                    String::from_str("Return from method"),
                );
            },
        }
    }

    /// One whole run: the source is split into lines, the state reset, and
    /// when a static `main` exists its body is walked from a fresh `main`
    /// frame; the flow carries the steps, the call graph, each object's
    /// life, and the deepest stack observed — never more than the depth
    /// cap, and nothing at all without a `main`.
    pub fn analyze_execution_flow(&mut self, root: &SyntaxNode, source: &str) -> (r: ExecutionFlow)
        ensures
            ({
                let ctx = CtxV {
                    root: *root,
                    lines: spec_lines(source@),
                    anal: old(self).spec_analysis_result(),
                };
                &&& r.steps@.map_values(|s: ExecutionStep| s@) == sim_run(ctx).steps
                &&& strs_map_view(r.call_graph) == sim_run(ctx).graph
                &&& spec_keys(r.call_graph) == sim_run(ctx).graph_keys
                &&& nums_map_view(r.object_lifecycle) == sim_run(ctx).life
                &&& spec_keys(r.object_lifecycle) == sim_run(ctx).life_keys
                &&& r.max_call_stack_depth == spec_max_depth(
                    sim_run(ctx).steps,
                    sim_run(ctx).steps.len() as int,
                )
                &&& r.max_call_stack_depth <= max_depth()
                &&& (spec_find_main(*root) is None ==> r.steps@.len() == 0
                    && r.max_call_stack_depth == 0)
            }),
    {
        self.source_lines = split_lines(source);
        self.call_stack = Vec::new();
        self.active_objects = Dict::new();
        self.field_values = Dict::new();
        self.param_bindings = Dict::new();
        self.steps = Vec::new();
        self.call_graph = Dict::new();
        self.object_lifecycle = Dict::new();
        let ghost ctx = CtxV {
            root: *root,
            lines: spec_lines(source@),
            anal: old(self).spec_analysis_result(),
        };
        proof {
            assert(self.ctx_of(*root) =~~= ctx);
            assert(self.sim_view() =~~= init_sim());
        }
        match find_main_exec(root) {
            None => {},
            Some(m) => {
                let ghost st_init = self.sim_view();
                self.call_stack.push(String::from_str("main"));
                proof {
                    assert(self.sim_view().stack =~= seq!["main"@]);
                    assert(self.sim_view() =~~= SimV { stack: seq!["main"@], ..init_sim() });
                }
                match field_index(m, "body") {
                    Some(bi) => {
                        let ghost st = self.sim_view();
                        self.analyze_block(root, &m.children[bi], 9);
                        proof {
                            assert((max_depth() - 1) as nat == 9nat);
                            lemma_block_frame(ctx, st, m.children@[bi as int], 0, 9nat);
                        }
                    },
                    None => {},
                }
                let ghost before_pop = self.sim_view();
                self.call_stack.pop();
                proof {
                    assert(self.sim_view() =~~= SimV {
                        stack: before_pop.stack.drop_last(),
                        ..before_pop
                    });
                }
            },
        }
        proof {
            assert(self.sim_view() =~~= sim_run(ctx));
        }
        let mut maxd: usize = 0;
        let ghost stepsv = self.steps@.map_values(|s: ExecutionStep| s@);
        let mut i: usize = 0;
        while i < self.steps.len()
            invariant
                i <= self.steps@.len(),
                stepsv == self.steps@.map_values(|s: ExecutionStep| s@),
                stepsv.len() == self.steps@.len(),
                maxd == spec_max_depth(stepsv, i as int),
            decreases self.steps@.len() - i,
        {
            proof {
                assert(stepsv[i as int] == self.steps@[i as int]@);
            }
            let l = self.steps[i].call_stack.len();
            if l > maxd {
                maxd = l;
            }
            i = i + 1;
        }
        let mut steps: Vec<ExecutionStep> = Vec::new();
        core::mem::swap(&mut steps, &mut self.steps);
        let mut call_graph: Dict<Vec<String>> = Dict::new();
        core::mem::swap(&mut call_graph, &mut self.call_graph);
        let mut object_lifecycle: Dict<Vec<usize>> = Dict::new();
        core::mem::swap(&mut object_lifecycle, &mut self.object_lifecycle);
        let r = ExecutionFlow { steps, call_graph, object_lifecycle, max_call_stack_depth: maxd };
        proof {
            lemma_depth_cap(ctx);
            if spec_find_main(*root) is None {
                lemma_no_main_empty(ctx);
            }
        }
        r
    }
}

} // verus!
