use vstd::prelude::*;

verus! {

use crate::analyzer::{
    AnalysisResult, AnalysisV, ClassV, FieldV, MethodV, ParamV, RelV, RelationshipType,
};
use crate::strings::{map_chars, undot_one, replace_dots, str_eq};

/// What the class-diagram renderer shows and how it groups it.
#[derive(Clone, Copy)]
pub struct GraphConfig {
    pub show_fields: bool,
    pub show_methods: bool,
    pub show_constructors: bool,
    pub show_method_parameters: bool,
    pub show_field_types: bool,
    pub show_private_members: bool,
    pub include_relationships: bool,
    pub show_method_calls: bool,
    pub cluster_fields: bool,
    pub cluster_methods: bool,
}

/// The configuration that shows everything, grouped.
pub open spec fn default_config() -> GraphConfig {
    GraphConfig {
        show_fields: true,
        show_methods: true,
        show_constructors: true,
        show_method_parameters: true,
        show_field_types: true,
        show_private_members: true,
        include_relationships: true,
        show_method_calls: true,
        cluster_fields: true,
        cluster_methods: true,
    }
}

impl Default for GraphConfig {
    fn default() -> (r: GraphConfig)
        ensures
            r == default_config(),
    {
        GraphConfig {
            show_fields: true,
            show_methods: true,
            show_constructors: true,
            show_method_parameters: true,
            show_field_types: true,
            show_private_members: true,
            include_relationships: true,
            show_method_calls: true,
            cluster_fields: true,
            cluster_methods: true,
        }
    }
}

/// The class-diagram renderer: one DOT graph from one analysis.
pub struct GraphGenerator {
    config: GraphConfig,
}

/// A name with its dots replaced, as node identifiers require.
pub open spec fn undot(s: Seq<char>) -> Seq<char> {
    map_chars(s, s.len() as int, |c: char| undot_one(c))
}

/// The label of a class node: its name, marked as interface or abstract.
pub open spec fn spec_class_label(c: ClassV) -> Seq<char> {
    if c.is_interface {
        c.name + " (interface)"@
    } else if c.is_abstract {
        c.name + " (abstract)"@
    } else {
        c.name
    }
}

/// A visibility as labels show it: `package` stays silent.
pub open spec fn vis_part(v: Seq<char>) -> Seq<char> {
    if v == "package"@ {
        Seq::empty()
    } else {
        v
    }
}

/// The label of a field node.
pub open spec fn spec_field_label(cfg: GraphConfig, f: FieldV) -> Seq<char> {
    vis_part(f.vis) + (if f.is_static {
        "static "@
    } else {
        Seq::empty()
    }) + (if f.is_final {
        "final "@
    } else {
        Seq::empty()
    }) + (if cfg.show_field_types {
        f.ty + " "@
    } else {
        Seq::empty()
    }) + f.name
}

/// One parameter as a label shows it.
pub open spec fn spec_param_label(cfg: GraphConfig, p: ParamV) -> Seq<char> {
    if cfg.show_field_types {
        p.ty + " "@ + p.name
    } else {
        p.name
    }
}

/// The first `n` parameter labels, joined with commas.
pub open spec fn spec_params_join(cfg: GraphConfig, ps: Seq<ParamV>, n: int) -> Seq<char>
    decreases n,
{
    if n <= 0 {
        Seq::empty()
    } else {
        spec_params_join(cfg, ps, n - 1) + (if n - 1 > 0 {
            ", "@
        } else {
            Seq::empty()
        }) + spec_param_label(cfg, ps[n - 1])
    }
}

/// The parenthesized parameter list of a member label.
pub open spec fn spec_params_part(cfg: GraphConfig, ps: Seq<ParamV>) -> Seq<char> {
    if cfg.show_method_parameters {
        "("@ + spec_params_join(cfg, ps, ps.len() as int) + ")"@
    } else {
        "()"@
    }
}

/// The label of a method node.
pub open spec fn spec_method_label(cfg: GraphConfig, m: MethodV) -> Seq<char> {
    vis_part(m.vis) + (if m.is_static {
        "static "@
    } else {
        Seq::empty()
    }) + (if m.is_abstract {
        "abstract "@
    } else {
        Seq::empty()
    }) + m.name + spec_params_part(cfg, m.params) + ": "@ + m.ret
}

/// The fill colour of a method node, by its visibility.
pub open spec fn spec_method_color(m: MethodV) -> Seq<char> {
    if m.vis == "public"@ {
        "lightgreen"@
    } else if m.vis == "private"@ {
        "lightcoral"@
    } else if m.vis == "protected"@ {
        "lightorange"@
    } else {
        "lightgray"@
    }
}

/// The node line of one field.
pub open spec fn spec_field_node(cfg: GraphConfig, f: FieldV, cls: Seq<char>) -> Seq<char> {
    "        \""@ + cls + "_"@ + f.name + "\" [label=\""@ + spec_field_label(cfg, f)
        + "\", shape=note, style=filled, fillcolor=lightyellow];\n"@
}

/// The node line of one method.
pub open spec fn spec_method_node(cfg: GraphConfig, m: MethodV, cls: Seq<char>) -> Seq<char> {
    "        \""@ + cls + "_"@ + m.name + "\" [label=\""@ + spec_method_label(cfg, m)
        + "\", shape=component, style=filled, fillcolor="@ + spec_method_color(m) + "];\n"@
}

/// Whether a member with this visibility is kept out of the graph.
pub open spec fn hidden(cfg: GraphConfig, vis: Seq<char>) -> bool {
    !cfg.show_private_members && vis == "private"@
}

/// The node lines of the first `n` fields that the configuration shows.
pub open spec fn spec_field_nodes(cfg: GraphConfig, fs: Seq<FieldV>, cls: Seq<char>, n: int) -> Seq<
    char,
>
    decreases n,
{
    if n <= 0 {
        Seq::empty()
    } else {
        spec_field_nodes(cfg, fs, cls, n - 1) + (if hidden(cfg, fs[n - 1].vis) {
            Seq::<char>::empty()
        } else {
            spec_field_node(cfg, fs[n - 1], cls)
        })
    }
}

/// The node lines of the first `n` methods that the configuration shows.
pub open spec fn spec_method_nodes(cfg: GraphConfig, ms: Seq<MethodV>, cls: Seq<char>, n: int) -> Seq<
    char,
>
    decreases n,
{
    if n <= 0 {
        Seq::empty()
    } else {
        spec_method_nodes(cfg, ms, cls, n - 1) + (if hidden(cfg, ms[n - 1].vis) {
            Seq::<char>::empty()
        } else {
            spec_method_node(cfg, ms[n - 1], cls)
        })
    }
}

/// The fields section of a class subgraph, grouped when asked.
pub open spec fn spec_fields_section(cfg: GraphConfig, c: ClassV, cls: Seq<char>) -> Seq<char> {
    if cfg.show_fields && c.fields.len() > 0 {
        (if cfg.cluster_fields {
            "        subgraph cluster_"@ + cls + "_fields {\n"@
                + "            label=\"Fields\";\n"@ + "            style=dashed;\n"@
        } else {
            Seq::<char>::empty()
        }) + spec_field_nodes(cfg, c.fields, cls, c.fields.len() as int) + (if cfg.cluster_fields {
            "        }\n"@
        } else {
            Seq::<char>::empty()
        })
    } else {
        Seq::empty()
    }
}

/// The methods section of a class subgraph, grouped when asked.
pub open spec fn spec_methods_section(cfg: GraphConfig, c: ClassV, cls: Seq<char>) -> Seq<char> {
    if cfg.show_methods && c.methods.len() > 0 {
        (if cfg.cluster_methods {
            "        subgraph cluster_"@ + cls + "_methods {\n"@
                + "            label=\"Methods\";\n"@ + "            style=dashed;\n"@
        } else {
            Seq::<char>::empty()
        }) + spec_method_nodes(cfg, c.methods, cls, c.methods.len() as int) + (if cfg.cluster_methods {
            "        }\n"@
        } else {
            Seq::<char>::empty()
        })
    } else {
        Seq::empty()
    }
}

/// One dashed edge from the class node to a member node.
pub open spec fn spec_member_edge(cls: Seq<char>, member: Seq<char>) -> Seq<char> {
    "        \""@ + cls + "_class\" -> \""@ + cls + "_"@ + member
        + "\" [style=dashed, arrowhead=none];\n"@
}

/// The edges from the class node to its first `n` shown fields.
pub open spec fn spec_field_edges(cfg: GraphConfig, fs: Seq<FieldV>, cls: Seq<char>, n: int) -> Seq<
    char,
>
    decreases n,
{
    if n <= 0 {
        Seq::empty()
    } else {
        spec_field_edges(cfg, fs, cls, n - 1) + (if hidden(cfg, fs[n - 1].vis) {
            Seq::<char>::empty()
        } else {
            spec_member_edge(cls, fs[n - 1].name)
        })
    }
}

/// The edges from the class node to its first `n` shown methods.
pub open spec fn spec_method_edges(cfg: GraphConfig, ms: Seq<MethodV>, cls: Seq<char>, n: int) -> Seq<
    char,
>
    decreases n,
{
    if n <= 0 {
        Seq::empty()
    } else {
        spec_method_edges(cfg, ms, cls, n - 1) + (if hidden(cfg, ms[n - 1].vis) {
            Seq::<char>::empty()
        } else {
            spec_member_edge(cls, ms[n - 1].name)
        })
    }
}

/// The in-class edges of one class.
pub open spec fn spec_internal_connections(cfg: GraphConfig, c: ClassV, cls: Seq<char>) -> Seq<
    char,
> {
    spec_field_edges(cfg, c.fields, cls, c.fields.len() as int) + spec_method_edges(
        cfg,
        c.methods,
        cls,
        c.methods.len() as int,
    )
}

/// The whole subgraph of one class.
pub open spec fn spec_class_subgraph(cfg: GraphConfig, c: ClassV) -> Seq<char> {
    let cls = undot(c.name);
    "    subgraph cluster_"@ + cls + " {\n"@ + "        label=\""@ + spec_class_label(c)
        + "\";\n"@ + "        style=filled;\n"@ + "        color=lightgrey;\n"@
        + "        node [shape=box, style=filled, fillcolor=white];\n\n"@ + "        \""@ + cls
        + "_class\" [label=\""@ + spec_class_label(c)
        + "\", shape=ellipse, style=filled, fillcolor=lightblue];\n"@ + spec_fields_section(
        cfg,
        c,
        cls,
    ) + spec_methods_section(cfg, c, cls) + spec_internal_connections(cfg, c, cls) + "    }\n"@
}

/// The subgraphs of the first `n` classes, each followed by a blank line.
pub open spec fn spec_class_subgraphs(cfg: GraphConfig, cs: Seq<ClassV>, n: int) -> Seq<char>
    decreases n,
{
    if n <= 0 {
        Seq::empty()
    } else {
        spec_class_subgraphs(cfg, cs, n - 1) + spec_class_subgraph(cfg, cs[n - 1]) + "\n"@
    }
}

/// One blue call arrow between qualified member nodes.
pub open spec fn spec_call_edge(r: RelV) -> Seq<char> {
    "    \""@ + undot(r.from) + "\" -> \""@ + undot(r.to)
        + "\" [arrowhead=normal, style=solid, color=blue];\n"@
}

/// The line one relationship contributes, by its kind.
pub open spec fn spec_rel_line(cfg: GraphConfig, r: RelV) -> Seq<char> {
    match r.kind {
        RelationshipType::Extends => "    \""@ + undot(r.from) + "_class\" -> \""@ + undot(r.to)
            + "_class\" [arrowhead=empty, style=solid, label=extends];\n"@,
        RelationshipType::Implements => "    \""@ + undot(r.from) + "_class\" -> \""@ + undot(r.to)
            + "_class\" [arrowhead=empty, style=dashed, label=implements];\n"@,
        RelationshipType::Calls => if cfg.show_method_calls {
            spec_call_edge(r)
        } else {
            Seq::empty()
        },
        RelationshipType::MethodCall => if cfg.show_method_calls {
            spec_call_edge(r)
        } else {
            Seq::empty()
        },
        _ => Seq::empty(),
    }
}

/// The lines of the first `n` relationships.
pub open spec fn spec_rel_lines(cfg: GraphConfig, rs: Seq<RelV>, n: int) -> Seq<char>
    decreases n,
{
    if n <= 0 {
        Seq::empty()
    } else {
        spec_rel_lines(cfg, rs, n - 1) + spec_rel_line(cfg, rs[n - 1])
    }
}

/// The fixed opening of every class diagram.
pub open spec fn spec_dot_header() -> Seq<char> {
    "digraph JavaClasses {\n"@ + "    rankdir=TB;\n"@ + "    fontname=\"Arial\";\n"@
        + "    node [fontname=\"Arial\"];\n"@ + "    edge [fontname=\"Arial\", fontsize=10];\n\n"@
}

/// The whole DOT text of one analysis under one configuration.
pub open spec fn spec_dot(cfg: GraphConfig, a: AnalysisV) -> Seq<char> {
    spec_dot_header() + spec_class_subgraphs(cfg, a.classes, a.classes.len() as int) + (if cfg.include_relationships {
        spec_rel_lines(cfg, a.rels, a.rels.len() as int)
    } else {
        Seq::<char>::empty()
    }) + "}\n"@
}

use crate::analyzer::{JavaClass, JavaField, JavaMethod, Relationship};
use vstd::string::StringExecFns;

/// The label of a class node.
fn class_label(c: &JavaClass) -> (r: String)
    ensures
        r@ == spec_class_label(c@),
{
    if c.is_interface {
        let mut s = c.name.clone();
        s.append(" (interface)");
        s
    } else if c.is_abstract {
        let mut s = c.name.clone();
        s.append(" (abstract)");
        s
    } else {
        c.name.clone()
    }
}

/// The label of a field node.
fn field_label(cfg: &GraphConfig, f: &JavaField) -> (r: String)
    ensures
        r@ == spec_field_label(*cfg, f@),
{
    let mut s = String::new();
    if !str_eq(f.visibility.as_str(), "package") {
        s.append(f.visibility.as_str());
    }
    if f.is_static {
        s.append("static ");
    }
    if f.is_final {
        s.append("final ");
    }
    if cfg.show_field_types {
        s.append(f.field_type.as_str());
        s.append(" ");
    }
    s.append(f.name.as_str());
    proof {
        assert(s@ =~= spec_field_label(*cfg, f@));
    }
    s
}

/// The joined parameter labels of a member.
fn params_join(cfg: &GraphConfig, ps: &Vec<JavaParameter>) -> (r: String)
    ensures
        r@ == spec_params_join(*cfg, ps@.map_values(|p: JavaParameter| p@), ps@.len() as int),
{
    let ghost psv = ps@.map_values(|p: JavaParameter| p@);
    let mut s = String::new();
    let mut i: usize = 0;
    while i < ps.len()
        invariant
            i <= ps@.len(),
            psv == ps@.map_values(|p: JavaParameter| p@),
            psv.len() == ps@.len(),
            s@ == spec_params_join(*cfg, psv, i as int),
        decreases ps@.len() - i,
    {
        proof {
            assert(psv[i as int] == ps@[i as int]@);
        }
        if i > 0 {
            s.append(", ");
        }
        if cfg.show_field_types {
            s.append(ps[i].param_type.as_str());
            s.append(" ");
            s.append(ps[i].name.as_str());
        } else {
            s.append(ps[i].name.as_str());
        }
        i = i + 1;
        proof {
            assert(s@ =~= spec_params_join(*cfg, psv, i as int));
        }
    }
    s
}

/// The label of a method node.
fn method_label(cfg: &GraphConfig, m: &JavaMethod) -> (r: String)
    ensures
        r@ == spec_method_label(*cfg, m@),
{
    let mut s = String::new();
    if !str_eq(m.visibility.as_str(), "package") {
        s.append(m.visibility.as_str());
    }
    if m.is_static {
        s.append("static ");
    }
    if m.is_abstract {
        s.append("abstract ");
    }
    s.append(m.name.as_str());
    if cfg.show_method_parameters {
        s.append("(");
        let joined = params_join(cfg, &m.parameters);
        s.append(joined.as_str());
        s.append(")");
    } else {
        s.append("()");
    }
    s.append(": ");
    s.append(m.return_type.as_str());
    proof {
        assert(s@ =~= spec_method_label(*cfg, m@));
    }
    s
}

/// The fill colour of a method node.
fn method_color(m: &JavaMethod) -> (r: String)
    ensures
        r@ == spec_method_color(m@),
{
    if str_eq(m.visibility.as_str(), "public") {
        String::from_str("lightgreen")
    } else if str_eq(m.visibility.as_str(), "private") {
        String::from_str("lightcoral")
    } else if str_eq(m.visibility.as_str(), "protected") {
        String::from_str("lightorange")
    } else {
        String::from_str("lightgray")
    }
}

/// The node line of one field.
fn field_node(cfg: &GraphConfig, f: &JavaField, cls: &str) -> (r: String)
    ensures
        r@ == spec_field_node(*cfg, f@, cls@),
{
    let mut s = String::from_str("        \"");
    s.append(cls);
    s.append("_");
    s.append(f.name.as_str());
    s.append("\" [label=\"");
    let label = field_label(cfg, f);
    s.append(label.as_str());
    s.append("\", shape=note, style=filled, fillcolor=lightyellow];\n");
    proof {
        assert(s@ =~= spec_field_node(*cfg, f@, cls@));
    }
    s
}

/// The node line of one method.
fn method_node(cfg: &GraphConfig, m: &JavaMethod, cls: &str) -> (r: String)
    ensures
        r@ == spec_method_node(*cfg, m@, cls@),
{
    let mut s = String::from_str("        \"");
    s.append(cls);
    s.append("_");
    s.append(m.name.as_str());
    s.append("\" [label=\"");
    let label = method_label(cfg, m);
    s.append(label.as_str());
    s.append("\", shape=component, style=filled, fillcolor=");
    let color = method_color(m);
    s.append(color.as_str());
    s.append("];\n");
    proof {
        assert(s@ =~= spec_method_node(*cfg, m@, cls@));
    }
    s
}

/// One dashed edge from the class node to a member node.
fn member_edge(cls: &str, member: &str) -> (r: String)
    ensures
        r@ == spec_member_edge(cls@, member@),
{
    let mut s = String::from_str("        \"");
    s.append(cls);
    s.append("_class\" -> \"");
    s.append(cls);
    s.append("_");
    s.append(member);
    s.append("\" [style=dashed, arrowhead=none];\n");
    proof {
        assert(s@ =~= spec_member_edge(cls@, member@));
    }
    s
}

/// The fields section of a class subgraph.
fn fields_section(cfg: &GraphConfig, c: &JavaClass, cls: &str) -> (r: String)
    ensures
        r@ == spec_fields_section(*cfg, c@, cls@),
{
    let mut s = String::new();
    if cfg.show_fields && c.fields.len() > 0 {
        if cfg.cluster_fields {
            s.append("        subgraph cluster_");
            s.append(cls);
            s.append("_fields {\n");
            s.append("            label=\"Fields\";\n");
            s.append("            style=dashed;\n");
        }
        let ghost base = s@;
        let ghost fsv = c@.fields;
        let mut i: usize = 0;
        while i < c.fields.len()
            invariant
                i <= c.fields@.len(),
                fsv == c@.fields,
                fsv.len() == c.fields@.len(),
                s@ == base + spec_field_nodes(*cfg, fsv, cls@, i as int),
            decreases c.fields@.len() - i,
        {
            proof {
                assert(fsv[i as int] == c.fields@[i as int]@);
            }
            let show = cfg.show_private_members || !str_eq(
                c.fields[i].visibility.as_str(),
                "private",
            );
            if show {
                let node = field_node(cfg, &c.fields[i], cls);
                s.append(node.as_str());
            }
            i = i + 1;
            proof {
                assert(s@ =~= base + spec_field_nodes(*cfg, fsv, cls@, i as int));
            }
        }
        if cfg.cluster_fields {
            s.append("        }\n");
        }
    }
    proof {
        assert(s@ =~= spec_fields_section(*cfg, c@, cls@));
    }
    s
}

/// The methods section of a class subgraph.
fn methods_section(cfg: &GraphConfig, c: &JavaClass, cls: &str) -> (r: String)
    ensures
        r@ == spec_methods_section(*cfg, c@, cls@),
{
    let mut s = String::new();
    if cfg.show_methods && c.methods.len() > 0 {
        if cfg.cluster_methods {
            s.append("        subgraph cluster_");
            s.append(cls);
            s.append("_methods {\n");
            s.append("            label=\"Methods\";\n");
            s.append("            style=dashed;\n");
        }
        let ghost base = s@;
        let ghost msv = c@.methods;
        let mut i: usize = 0;
        while i < c.methods.len()
            invariant
                i <= c.methods@.len(),
                msv == c@.methods,
                msv.len() == c.methods@.len(),
                s@ == base + spec_method_nodes(*cfg, msv, cls@, i as int),
            decreases c.methods@.len() - i,
        {
            proof {
                assert(msv[i as int] == c.methods@[i as int]@);
            }
            let show = cfg.show_private_members || !str_eq(
                c.methods[i].visibility.as_str(),
                "private",
            );
            if show {
                let node = method_node(cfg, &c.methods[i], cls);
                s.append(node.as_str());
            }
            i = i + 1;
            proof {
                assert(s@ =~= base + spec_method_nodes(*cfg, msv, cls@, i as int));
            }
        }
        if cfg.cluster_methods {
            s.append("        }\n");
        }
    }
    proof {
        assert(s@ =~= spec_methods_section(*cfg, c@, cls@));
    }
    s
}

/// The in-class edges of one class.
fn internal_connections(cfg: &GraphConfig, c: &JavaClass, cls: &str) -> (r: String)
    ensures
        r@ == spec_internal_connections(*cfg, c@, cls@),
{
    let mut s = String::new();
    let ghost fsv = c@.fields;
    let mut i: usize = 0;
    while i < c.fields.len()
        invariant
            i <= c.fields@.len(),
            fsv == c@.fields,
            fsv.len() == c.fields@.len(),
            s@ == spec_field_edges(*cfg, fsv, cls@, i as int),
        decreases c.fields@.len() - i,
    {
        proof {
            assert(fsv[i as int] == c.fields@[i as int]@);
        }
        let show = cfg.show_private_members || !str_eq(c.fields[i].visibility.as_str(), "private");
        if show {
            let e = member_edge(cls, c.fields[i].name.as_str());
            s.append(e.as_str());
        }
        i = i + 1;
        proof {
            assert(s@ =~= spec_field_edges(*cfg, fsv, cls@, i as int));
        }
    }
    let ghost base = s@;
    let ghost msv = c@.methods;
    let mut i: usize = 0;
    while i < c.methods.len()
        invariant
            i <= c.methods@.len(),
            msv == c@.methods,
            msv.len() == c.methods@.len(),
            s@ == base + spec_method_edges(*cfg, msv, cls@, i as int),
        decreases c.methods@.len() - i,
    {
        proof {
            assert(msv[i as int] == c.methods@[i as int]@);
        }
        let show = cfg.show_private_members || !str_eq(c.methods[i].visibility.as_str(), "private");
        if show {
            let e = member_edge(cls, c.methods[i].name.as_str());
            s.append(e.as_str());
        }
        i = i + 1;
        proof {
            assert(s@ =~= base + spec_method_edges(*cfg, msv, cls@, i as int));
        }
    }
    proof {
        assert(s@ =~= spec_internal_connections(*cfg, c@, cls@));
    }
    s
}

/// The whole subgraph of one class.
fn class_subgraph(cfg: &GraphConfig, c: &JavaClass) -> (r: String)
    ensures
        r@ == spec_class_subgraph(*cfg, c@),
{
    let cls = replace_dots(c.name.as_str());
    let label = class_label(c);
    let mut s = String::from_str("    subgraph cluster_");
    s.append(cls.as_str());
    s.append(" {\n");
    s.append("        label=\"");
    s.append(label.as_str());
    s.append("\";\n");
    s.append("        style=filled;\n");
    s.append("        color=lightgrey;\n");
    s.append("        node [shape=box, style=filled, fillcolor=white];\n\n");
    s.append("        \"");
    s.append(cls.as_str());
    s.append("_class\" [label=\"");
    s.append(label.as_str());
    s.append("\", shape=ellipse, style=filled, fillcolor=lightblue];\n");
    let fs = fields_section(cfg, c, cls.as_str());
    s.append(fs.as_str());
    let ms = methods_section(cfg, c, cls.as_str());
    s.append(ms.as_str());
    let ic = internal_connections(cfg, c, cls.as_str());
    s.append(ic.as_str());
    s.append("    }\n");
    proof {
        assert(s@ =~= spec_class_subgraph(*cfg, c@));
    }
    s
}

/// The line one relationship contributes.
fn rel_line(cfg: &GraphConfig, r: &Relationship) -> (out: String)
    ensures
        out@ == spec_rel_line(*cfg, r@),
{
    match r.relationship_type {
        RelationshipType::Extends => {
            let mut s = String::from_str("    \"");
            let f = replace_dots(r.from.as_str());
            s.append(f.as_str());
            s.append("_class\" -> \"");
            let t = replace_dots(r.to.as_str());
            s.append(t.as_str());
            s.append("_class\" [arrowhead=empty, style=solid, label=extends];\n");
            proof {
                assert(s@ =~= spec_rel_line(*cfg, r@));
            }
            s
        },
        RelationshipType::Implements => {
            let mut s = String::from_str("    \"");
            let f = replace_dots(r.from.as_str());
            s.append(f.as_str());
            s.append("_class\" -> \"");
            let t = replace_dots(r.to.as_str());
            s.append(t.as_str());
            s.append("_class\" [arrowhead=empty, style=dashed, label=implements];\n");
            proof {
                assert(s@ =~= spec_rel_line(*cfg, r@));
            }
            s
        },
        RelationshipType::Calls => {
            if cfg.show_method_calls {
                let s = call_edge(r);
                s
            } else {
                String::new()
            }
        },
        RelationshipType::MethodCall => {
            if cfg.show_method_calls {
                let s = call_edge(r);
                s
            } else {
                String::new()
            }
        },
        _ => String::new(),
    }
}

/// One blue call arrow between member nodes.
fn call_edge(r: &Relationship) -> (out: String)
    ensures
        out@ == spec_call_edge(r@),
{
    let mut s = String::from_str("    \"");
    let f = replace_dots(r.from.as_str());
    s.append(f.as_str());
    s.append("\" -> \"");
    let t = replace_dots(r.to.as_str());
    s.append(t.as_str());
    s.append("\" [arrowhead=normal, style=solid, color=blue];\n");
    proof {
        assert(s@ =~= spec_call_edge(r@));
    }
    s
}

use crate::analyzer::JavaParameter;

impl GraphGenerator {
    /// The configuration the generator renders with.
    pub closed spec fn spec_config(&self) -> GraphConfig {
        self.config
    }

    /// A generator with the default configuration.
    pub fn new() -> (r: GraphGenerator)
        ensures
            r.spec_config() == default_config(),
    {
        GraphGenerator { config: GraphConfig::default() }
    }

    /// A generator with the given configuration.
    pub fn with_config(config: GraphConfig) -> (r: GraphGenerator)
        ensures
            r.spec_config() == config,
    {
        GraphGenerator { config }
    }

    /// The whole DOT text of one analysis: the fixed header, one subgraph
    /// per class, the relationship edges when asked, and the closing brace.
    #[verifier::rlimit(60)]
    pub fn generate_dot(&self, analysis: &AnalysisResult) -> (r: String)
        ensures
            r@ == spec_dot(self.spec_config(), analysis@),
    {
        let cfg = &self.config;
        let mut s = String::from_str("digraph JavaClasses {\n");
        s.append("    rankdir=TB;\n");
        s.append("    fontname=\"Arial\";\n");
        s.append("    node [fontname=\"Arial\"];\n");
        s.append("    edge [fontname=\"Arial\", fontsize=10];\n\n");
        proof {
            assert(s@ =~= spec_dot_header());
        }
        let ghost csv = analysis@.classes;
        let mut i: usize = 0;
        while i < analysis.classes.len()
            invariant
                i <= analysis.classes@.len(),
                csv == analysis@.classes,
                csv.len() == analysis.classes@.len(),
                s@ == spec_dot_header() + spec_class_subgraphs(*cfg, csv, i as int),
                cfg == &self.config,
            decreases analysis.classes@.len() - i,
        {
            proof {
                assert(csv[i as int] == analysis.classes@[i as int]@);
            }
            let sub = class_subgraph(cfg, &analysis.classes[i]);
            s.append(sub.as_str());
            s.append("\n");
            i = i + 1;
            proof {
                assert(s@ =~= spec_dot_header() + spec_class_subgraphs(*cfg, csv, i as int));
            }
        }
        if cfg.include_relationships {
            let ghost base = s@;
            let ghost rsv = analysis@.rels;
            let mut i: usize = 0;
            while i < analysis.relationships.len()
                invariant
                    i <= analysis.relationships@.len(),
                    rsv == analysis@.rels,
                    rsv.len() == analysis.relationships@.len(),
                    s@ == base + spec_rel_lines(*cfg, rsv, i as int),
                    cfg == &self.config,
                decreases analysis.relationships@.len() - i,
            {
                proof {
                    assert(rsv[i as int] == analysis.relationships@[i as int]@);
                }
                let line = rel_line(cfg, &analysis.relationships[i]);
                s.append(line.as_str());
                i = i + 1;
                proof {
                    assert(s@ =~= base + spec_rel_lines(*cfg, rsv, i as int));
                }
            }
        }
        s.append("}\n");
        proof {
            assert(s@ =~= spec_dot(self.spec_config(), analysis@));
        }
        s
    }
}

} // verus!
