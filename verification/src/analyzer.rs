use vstd::prelude::*;

verus! {

use crate::dict::{Dict, spec_get};
use crate::strings::{str_eq, starts_uppercase, is_uppercase_char};
use crate::tree::{
    SyntaxNode, spec_child_by_field, spec_child_by_kind, spec_has_child_text, spec_line,
};

/// One field of a class: name, raw textual type, visibility and modifiers.
pub struct JavaField {
    pub name: String,
    pub field_type: String,
    pub visibility: String,
    pub is_static: bool,
    pub is_final: bool,
}

/// One formal parameter: name and raw textual type.
pub struct JavaParameter {
    pub name: String,
    pub param_type: String,
}

/// One call site found in a method body: the receiver, the called method,
/// the class the receiver resolves to, and whether the receiver looks like
/// a static class reference.
pub struct MethodCall {
    pub caller_object: Option<String>,
    pub method_name: String,
    pub target_class: String,
    pub is_static_call: bool,
}

/// One method or constructor: constructors carry an empty return type.
pub struct JavaMethod {
    pub name: String,
    pub return_type: String,
    pub visibility: String,
    pub is_static: bool,
    pub is_abstract: bool,
    pub parameters: Vec<JavaParameter>,
    pub calls: Vec<MethodCall>,
}

/// One declared class or interface with its members and header clauses.
pub struct JavaClass {
    pub name: String,
    pub visibility: String,
    pub is_abstract: bool,
    pub is_interface: bool,
    pub extends: Option<String>,
    pub implements: Vec<String>,
    pub fields: Vec<JavaField>,
    pub methods: Vec<JavaMethod>,
    pub constructors: Vec<JavaMethod>,
}

/// One registered object variable: its class, the line it was declared on,
/// and whether it entered as a parameter.
pub struct ObjectInfo {
    pub variable_name: String,
    pub class_name: String,
    pub declared_at_line: usize,
    pub is_parameter: bool,
}

/// The kind of a directed relationship between model elements.
#[derive(Clone, Copy, PartialEq, Eq, Structural, Debug)]
pub enum RelationshipType {
    Extends,
    Implements,
    Uses,
    Calls,
    MethodCall,
    Contains,
}

/// A directed edge of the model: type-level edges carry bare class names,
/// call edges carry `Class.method` qualified names on both sides.
pub struct Relationship {
    pub from: String,
    pub to: String,
    pub relationship_type: RelationshipType,
}

/// Everything one analysis run produces.
pub struct AnalysisResult {
    pub classes: Vec<JavaClass>,
    pub relationships: Vec<Relationship>,
    pub object_registry: Dict<ObjectInfo>,
    pub type_inference: Dict<String>,
}

/// The view of a field.
#[verifier::ext_equal]
pub ghost struct FieldV {
    pub name: Seq<char>,
    pub ty: Seq<char>,
    pub vis: Seq<char>,
    pub is_static: bool,
    pub is_final: bool,
}

/// The view of a parameter.
#[verifier::ext_equal]
pub ghost struct ParamV {
    pub name: Seq<char>,
    pub ty: Seq<char>,
}

/// The view of a call site.
#[verifier::ext_equal]
pub ghost struct CallV {
    pub caller: Option<Seq<char>>,
    pub method: Seq<char>,
    pub target: Seq<char>,
    pub is_static: bool,
}

/// The view of a method.
#[verifier::ext_equal]
pub ghost struct MethodV {
    pub name: Seq<char>,
    pub ret: Seq<char>,
    pub vis: Seq<char>,
    pub is_static: bool,
    pub is_abstract: bool,
    pub params: Seq<ParamV>,
    pub calls: Seq<CallV>,
}

/// The view of a class.
#[verifier::ext_equal]
pub ghost struct ClassV {
    pub name: Seq<char>,
    pub vis: Seq<char>,
    pub is_abstract: bool,
    pub is_interface: bool,
    pub extends: Option<Seq<char>>,
    pub implements: Seq<Seq<char>>,
    pub fields: Seq<FieldV>,
    pub methods: Seq<MethodV>,
    pub ctors: Seq<MethodV>,
}

/// The view of a registered object.
#[verifier::ext_equal]
pub ghost struct ObjV {
    pub var: Seq<char>,
    pub class: Seq<char>,
    pub line: usize,
    pub is_param: bool,
}

/// The view of a relationship.
#[verifier::ext_equal]
pub ghost struct RelV {
    pub from: Seq<char>,
    pub to: Seq<char>,
    pub kind: RelationshipType,
}

/// The view of a whole analysis result.
#[verifier::ext_equal]
pub ghost struct AnalysisV {
    pub classes: Seq<ClassV>,
    pub rels: Seq<RelV>,
    pub registry: Map<Seq<char>, ObjV>,
    pub registry_keys: Seq<Seq<char>>,
    pub infer: Map<Seq<char>, Seq<char>>,
    pub infer_keys: Seq<Seq<char>>,
}

impl View for JavaField {
    type V = FieldV;

    open spec fn view(&self) -> FieldV {
        FieldV {
            name: self.name@,
            ty: self.field_type@,
            vis: self.visibility@,
            is_static: self.is_static,
            is_final: self.is_final,
        }
    }
}

impl View for JavaParameter {
    type V = ParamV;

    open spec fn view(&self) -> ParamV {
        ParamV { name: self.name@, ty: self.param_type@ }
    }
}

impl View for MethodCall {
    type V = CallV;

    open spec fn view(&self) -> CallV {
        CallV {
            caller: match self.caller_object {
                Some(s) => Some(s@),
                None => None,
            },
            method: self.method_name@,
            target: self.target_class@,
            is_static: self.is_static_call,
        }
    }
}

impl View for JavaMethod {
    type V = MethodV;

    open spec fn view(&self) -> MethodV {
        MethodV {
            name: self.name@,
            ret: self.return_type@,
            vis: self.visibility@,
            is_static: self.is_static,
            is_abstract: self.is_abstract,
            params: self.parameters@.map_values(|p: JavaParameter| p@),
            calls: self.calls@.map_values(|c: MethodCall| c@),
        }
    }
}

impl View for JavaClass {
    type V = ClassV;

    open spec fn view(&self) -> ClassV {
        ClassV {
            name: self.name@,
            vis: self.visibility@,
            is_abstract: self.is_abstract,
            is_interface: self.is_interface,
            extends: match self.extends {
                Some(s) => Some(s@),
                None => None,
            },
            implements: self.implements@.map_values(|s: String| s@),
            fields: self.fields@.map_values(|f: JavaField| f@),
            methods: self.methods@.map_values(|m: JavaMethod| m@),
            ctors: self.constructors@.map_values(|m: JavaMethod| m@),
        }
    }
}

impl View for ObjectInfo {
    type V = ObjV;

    open spec fn view(&self) -> ObjV {
        ObjV {
            var: self.variable_name@,
            class: self.class_name@,
            line: self.declared_at_line,
            is_param: self.is_parameter,
        }
    }
}

impl View for Relationship {
    type V = RelV;

    open spec fn view(&self) -> RelV {
        RelV { from: self.from@, to: self.to@, kind: self.relationship_type }
    }
}

/// The registry table seen as a map from variable name to object view.
pub open spec fn registry_view(d: Dict<ObjectInfo>) -> Map<Seq<char>, ObjV> {
    Map::new(
        |k: Seq<char>| spec_get(d, k) is Some,
        |k: Seq<char>| spec_get(d, k).unwrap()@,
    )
}

/// The inference table seen as a map from variable name to class name.
pub open spec fn infer_view(d: Dict<String>) -> Map<Seq<char>, Seq<char>> {
    Map::new(
        |k: Seq<char>| spec_get(d, k) is Some,
        |k: Seq<char>| spec_get(d, k).unwrap()@,
    )
}

impl View for AnalysisResult {
    type V = AnalysisV;

    open spec fn view(&self) -> AnalysisV {
        AnalysisV {
            classes: self.classes@.map_values(|c: JavaClass| c@),
            rels: self.relationships@.map_values(|r: Relationship| r@),
            registry: registry_view(self.object_registry),
            registry_keys: crate::dict::spec_keys(self.object_registry),
            infer: infer_view(self.type_inference),
            infer_keys: crate::dict::spec_keys(self.type_inference),
        }
    }
}

/// The text of the child filling the `name` field, or empty.
pub open spec fn name_of(n: SyntaxNode) -> Seq<char> {
    match spec_child_by_field(n, "name"@) {
        Some(c) => c.text@,
        None => Seq::empty(),
    }
}

/// The node's `modifiers` child, if any.
pub open spec fn modifiers_of(n: SyntaxNode) -> Option<SyntaxNode> {
    spec_child_by_kind(n, "modifiers"@)
}

/// The first modifier from position `i` on that is a visibility keyword.
pub open spec fn vis_scan(cs: Seq<SyntaxNode>, i: int) -> Option<Seq<char>>
    decreases cs.len() - i,
{
    if i < 0 || i >= cs.len() {
        None
    } else if cs[i].text@ == "public"@ || cs[i].text@ == "private"@ || cs[i].text@
        == "protected"@ {
        Some(cs[i].text@)
    } else {
        vis_scan(cs, i + 1)
    }
}

/// The declared visibility: the first visibility keyword of the modifiers
/// clause, or `package` when there is none.
pub open spec fn vis_of(n: SyntaxNode) -> Seq<char> {
    match modifiers_of(n) {
        None => "package"@,
        Some(m) => match vis_scan(m.children@, 0) {
            Some(v) => v,
            None => "package"@,
        },
    }
}

/// Whether the modifiers clause carries the modifier `m`.
pub open spec fn has_mod(n: SyntaxNode, m: Seq<char>) -> bool {
    match modifiers_of(n) {
        None => false,
        Some(md) => spec_has_child_text(md, m),
    }
}

/// The named superclass of a class header, if any.
pub open spec fn extends_of(n: SyntaxNode) -> Option<Seq<char>> {
    match spec_child_by_kind(n, "superclass"@) {
        None => None,
        Some(sc) => match spec_child_by_kind(sc, "type_identifier"@) {
            None => None,
            Some(t) => Some(t.text@),
        },
    }
}

/// The texts of the named children from position `i` on.
pub open spec fn named_texts(cs: Seq<SyntaxNode>, i: int) -> Seq<Seq<char>>
    decreases cs.len() - i,
{
    if i < 0 || i >= cs.len() {
        Seq::empty()
    } else if cs[i].named {
        seq![cs[i].text@] + named_texts(cs, i + 1)
    } else {
        named_texts(cs, i + 1)
    }
}

/// The interfaces a header clause of kind `clause` lists, one per named
/// type in its type list.
pub open spec fn listed_ifaces(n: SyntaxNode, clause: Seq<char>) -> Seq<Seq<char>> {
    match spec_child_by_kind(n, clause) {
        None => Seq::empty(),
        Some(cl) => match spec_child_by_kind(cl, "type_list"@) {
            None => Seq::empty(),
            Some(tl) => named_texts(tl.children@, 0),
        },
    }
}

/// The text of the child filling the `type` field, or empty.
pub open spec fn type_field_text(n: SyntaxNode) -> Seq<char> {
    match spec_child_by_field(n, "type"@) {
        Some(t) => t.text@,
        None => Seq::empty(),
    }
}

/// The field a `field_declaration` node declares.
pub open spec fn field_v(n: SyntaxNode) -> FieldV {
    FieldV {
        name: match spec_child_by_kind(n, "variable_declarator"@) {
            Some(d) => name_of(d),
            None => Seq::empty(),
        },
        ty: type_field_text(n),
        vis: vis_of(n),
        is_static: has_mod(n, "static"@),
        is_final: has_mod(n, "final"@),
    }
}

/// One formal parameter, accepted only with both a name and a type.
pub open spec fn param_of(c: SyntaxNode) -> ParamV {
    ParamV { name: name_of(c), ty: type_field_text(c) }
}

/// The accepted parameters among the children from position `i` on.
pub open spec fn params_scan(cs: Seq<SyntaxNode>, i: int) -> Seq<ParamV>
    decreases cs.len() - i,
{
    if i < 0 || i >= cs.len() {
        Seq::empty()
    } else if cs[i].kind@ == "formal_parameter"@ && name_of(cs[i]).len() > 0 && type_field_text(
        cs[i],
    ).len() > 0 {
        seq![param_of(cs[i])] + params_scan(cs, i + 1)
    } else {
        params_scan(cs, i + 1)
    }
}

/// The parameters a member declaration lists.
pub open spec fn params_of(n: SyntaxNode) -> Seq<ParamV> {
    match spec_child_by_field(n, "parameters"@) {
        Some(ps) => params_scan(ps.children@, 0),
        None => Seq::empty(),
    }
}

/// The builder's accumulated state, as contracts see it: the class being
/// built, the completed classes, the relationships so far, the object
/// registry and type-inference tables with their key orders, and the name
/// of the method being walked.
#[verifier::ext_equal]
pub ghost struct BuildV {
    pub cur: Option<ClassV>,
    pub classes: Seq<ClassV>,
    pub rels: Seq<RelV>,
    pub registry: Map<Seq<char>, ObjV>,
    pub registry_keys: Seq<Seq<char>>,
    pub infer: Map<Seq<char>, Seq<char>>,
    pub infer_keys: Seq<Seq<char>>,
    pub cur_method: Option<Seq<char>>,
}

/// The state every run starts from.
pub open spec fn init_build() -> BuildV {
    BuildV {
        cur: None,
        classes: Seq::empty(),
        rels: Seq::empty(),
        registry: Map::empty(),
        registry_keys: Seq::empty(),
        infer: Map::empty(),
        infer_keys: Seq::empty(),
        cur_method: None,
    }
}

/// The type of the first field from position `i` on named `name`, if any.
pub open spec fn field_type_find(fs: Seq<FieldV>, i: int, name: Seq<char>) -> Option<Seq<char>>
    decreases fs.len() - i,
{
    if i < 0 || i >= fs.len() {
        None
    } else if fs[i].name == name {
        Some(fs[i].ty)
    } else {
        field_type_find(fs, i + 1, name)
    }
}

/// The class a receiver name resolves to: the type-inference table first,
/// then the object registry, then a field of the class being built.
pub open spec fn resolve_v(st: BuildV, name: Seq<char>) -> Option<Seq<char>> {
    if st.infer.contains_key(name) {
        Some(st.infer[name])
    } else if st.registry.contains_key(name) {
        Some(st.registry[name].class)
    } else {
        match st.cur {
            Some(c) => field_type_find(c.fields, 0, name),
            None => None,
        }
    }
}

/// The call site a `method_invocation` node describes, with its receiver
/// resolved against the current state; an unresolved uppercase receiver is
/// taken as a static class reference, an unresolved lowercase receiver
/// stands for itself, and a receiverless call has the target `unknown`.
pub open spec fn call_v(st: BuildV, n: SyntaxNode) -> CallV {
    let method = name_of(n);
    match spec_child_by_field(n, "object"@) {
        None => CallV { caller: None, method, target: "unknown"@, is_static: false },
        Some(ob) => {
            let oname = ob.text@;
            match resolve_v(st, oname) {
                Some(cls) => CallV { caller: Some(oname), method, target: cls, is_static: false },
                None => if oname.len() > 0 && is_uppercase_char(oname[0]) {
                    CallV { caller: Some(oname), method, target: oname, is_static: true }
                } else {
                    CallV { caller: Some(oname), method, target: oname, is_static: false }
                },
            }
        },
    }
}

/// The call sites of the top-level invocation statements from position `i`
/// on in a block.
pub open spec fn calls_scan(st: BuildV, cs: Seq<SyntaxNode>, i: int) -> Seq<CallV>
    decreases cs.len() - i,
{
    if i < 0 || i >= cs.len() {
        Seq::empty()
    } else if cs[i].kind@ == "expression_statement"@ && cs[i].children@.len() > 0
        && cs[i].children@[0].kind@ == "method_invocation"@ {
        seq![call_v(st, cs[i].children@[0])] + calls_scan(st, cs, i + 1)
    } else {
        calls_scan(st, cs, i + 1)
    }
}

/// The method a `method_declaration` node declares; a method of an
/// interface is abstract whether or not it says so.
pub open spec fn method_v(st: BuildV, n: SyntaxNode, in_iface: bool) -> MethodV {
    MethodV {
        name: name_of(n),
        ret: match spec_child_by_field(n, "type"@) {
            Some(t) => t.text@,
            None => "void"@,
        },
        vis: vis_of(n),
        is_static: has_mod(n, "static"@),
        is_abstract: has_mod(n, "abstract"@) || in_iface,
        params: params_of(n),
        calls: match spec_child_by_field(n, "body"@) {
            Some(b) => calls_scan(st, b.children@, 0),
            None => Seq::empty(),
        },
    }
}

/// The constructor a `constructor_declaration` node declares: its return
/// type stays empty.
pub open spec fn ctor_v(n: SyntaxNode) -> MethodV {
    MethodV {
        name: name_of(n),
        ret: Seq::empty(),
        vis: vis_of(n),
        is_static: false,
        is_abstract: false,
        params: params_of(n),
        calls: Seq::empty(),
    }
}

/// The return type of `method` on the first class from position `i` on
/// named `cls` that declares it; a constructor reports the class itself.
pub open spec fn ret_type_in(classes: Seq<ClassV>, i: int, cls: Seq<char>, method: Seq<char>)
    -> Option<Seq<char>>
    decreases classes.len() - i,
{
    if i < 0 || i >= classes.len() {
        None
    } else if classes[i].name == cls {
        match method_ret_find(classes[i].methods, 0, method) {
            Some(r) => Some(r),
            None => if ctor_name_found(classes[i].ctors, 0, method) {
                Some(cls)
            } else {
                ret_type_in(classes, i + 1, cls, method)
            },
        }
    } else {
        ret_type_in(classes, i + 1, cls, method)
    }
}

/// The return type of the first method from position `i` on named `m`.
pub open spec fn method_ret_find(ms: Seq<MethodV>, i: int, m: Seq<char>) -> Option<Seq<char>>
    decreases ms.len() - i,
{
    if i < 0 || i >= ms.len() {
        None
    } else if ms[i].name == m {
        Some(ms[i].ret)
    } else {
        method_ret_find(ms, i + 1, m)
    }
}

/// Whether some constructor from position `i` on is named `m`.
pub open spec fn ctor_name_found(ms: Seq<MethodV>, i: int, m: Seq<char>) -> bool
    decreases ms.len() - i,
{
    if i < 0 || i >= ms.len() {
        false
    } else if ms[i].name == m {
        true
    } else {
        ctor_name_found(ms, i + 1, m)
    }
}

/// Closes the class being built, if any, onto the completed list.
pub open spec fn flush_v(st: BuildV) -> BuildV {
    match st.cur {
        Some(c) => BuildV { cur: None, classes: st.classes.push(c), ..st },
        None => st,
    }
}

/// The one Extends edge an `extends` clause yields, from the declaring
/// class to the named superclass; none without the clause.
pub open spec fn ext_rels(name: Seq<char>, ext: Option<Seq<char>>) -> Seq<RelV> {
    match ext {
        Some(sup) => seq![RelV { from: name, to: sup, kind: RelationshipType::Extends }],
        None => Seq::empty(),
    }
}

/// One Implements edge per listed interface from position `i` on.
pub open spec fn impl_rels(name: Seq<char>, list: Seq<Seq<char>>, i: int) -> Seq<RelV>
    decreases list.len() - i,
{
    if i < 0 || i >= list.len() {
        Seq::empty()
    } else {
        seq![RelV { from: name, to: list[i], kind: RelationshipType::Implements }] + impl_rels(
            name,
            list,
            i + 1,
        )
    }
}

/// Opens a new class from a `class_declaration` header: the class being
/// built is flushed first, and the header's clauses yield their edges.
pub open spec fn class_step(st: BuildV, n: SyntaxNode) -> BuildV {
    let st1 = flush_v(st);
    let name = name_of(n);
    let ext = extends_of(n);
    let impls = listed_ifaces(n, "super_interfaces"@);
    let cls = ClassV {
        name,
        vis: vis_of(n),
        is_abstract: has_mod(n, "abstract"@),
        is_interface: false,
        extends: ext,
        implements: impls,
        fields: Seq::empty(),
        methods: Seq::empty(),
        ctors: Seq::empty(),
    };
    BuildV { cur: Some(cls), rels: st1.rels + ext_rels(name, ext) + impl_rels(name, impls, 0), ..st1 }
}

/// Opens a new interface from an `interface_declaration` header: public by
/// default, and its extends clause yields one Implements edge per listed
/// interface.
pub open spec fn interface_step(st: BuildV, n: SyntaxNode) -> BuildV {
    let st1 = flush_v(st);
    let name = name_of(n);
    let impls = listed_ifaces(n, "extends_interfaces"@);
    let cls = ClassV {
        name,
        vis: "public"@,
        is_abstract: false,
        is_interface: true,
        extends: None,
        implements: impls,
        fields: Seq::empty(),
        methods: Seq::empty(),
        ctors: Seq::empty(),
    };
    BuildV { cur: Some(cls), rels: st1.rels + impl_rels(name, impls, 0), ..st1 }
}

/// Adds a declared field to the class being built, if one is open.
pub open spec fn field_step(st: BuildV, n: SyntaxNode) -> BuildV {
    match st.cur {
        Some(c) => BuildV { cur: Some(ClassV { fields: c.fields.push(field_v(n)), ..c }), ..st },
        None => st,
    }
}

/// Adds a declared method to the class being built and remembers its name
/// for the walk of its body.
pub open spec fn method_step(st: BuildV, n: SyntaxNode) -> BuildV {
    let st1 = match st.cur {
        Some(c) => BuildV {
            cur: Some(
                ClassV { methods: c.methods.push(method_v(st, n, c.is_interface)), ..c },
            ),
            ..st
        },
        None => st,
    };
    BuildV { cur_method: Some(name_of(n)), ..st1 }
}

/// Adds a declared constructor to the class being built and remembers its
/// name for the walk of its body.
pub open spec fn ctor_step(st: BuildV, n: SyntaxNode) -> BuildV {
    let st1 = match st.cur {
        Some(c) => BuildV { cur: Some(ClassV { ctors: c.ctors.push(ctor_v(n)), ..c }), ..st },
        None => st,
    };
    BuildV { cur_method: Some(name_of(n)), ..st1 }
}

/// The qualified name `Class.method`, or the bare class name outside a
/// member body.
pub open spec fn qual_v(cls: Seq<char>, m: Option<Seq<char>>) -> Seq<char> {
    match m {
        Some(name) => cls + "."@ + name,
        None => cls,
    }
}

/// Records one call edge for a `method_invocation` inside a class: from the
/// enclosing member's qualified name to `Target.method`.
pub open spec fn invocation_step(st: BuildV, n: SyntaxNode) -> BuildV {
    match st.cur {
        None => st,
        Some(c) => {
            let mc = call_v(st, n);
            if mc.method.len() == 0 {
                st
            } else {
                let edge = RelV {
                    from: qual_v(c.name, st.cur_method),
                    to: mc.target + "."@ + mc.method,
                    kind: RelationshipType::MethodCall,
                };
                BuildV { rels: st.rels.push(edge), ..st }
            }
        },
    }
}

/// Binds `var` to class `cls` in both tables, stamped with `line`.
pub open spec fn register_v(st: BuildV, var: Seq<char>, cls: Seq<char>, line: usize) -> BuildV {
    BuildV {
        infer: st.infer.insert(var, cls),
        infer_keys: if st.infer.contains_key(var) {
            st.infer_keys
        } else {
            st.infer_keys.push(var)
        },
        registry: st.registry.insert(
            var,
            ObjV { var: var, class: cls, line: line, is_param: false },
        ),
        registry_keys: if st.registry.contains_key(var) {
            st.registry_keys
        } else {
            st.registry_keys.push(var)
        },
        ..st
    }
}

/// The variable name and effective type of a local declaration: the
/// constructed type wins over the declared one.
pub open spec fn var_decl_of(n: SyntaxNode) -> (Seq<char>, Seq<char>) {
    let ty0 = type_field_text(n);
    match spec_child_by_kind(n, "variable_declarator"@) {
        None => (Seq::empty(), ty0),
        Some(d) => (
            name_of(d),
            match spec_child_by_field(d, "value"@) {
                Some(v) => if v.kind@ == "object_creation_expression"@ {
                    match spec_child_by_field(v, "type"@) {
                        Some(t) => t.text@,
                        None => ty0,
                    }
                } else {
                    ty0
                },
                None => ty0,
            },
        ),
    }
}

/// Registers a local variable declaration when both its name and a type
/// are present.
pub open spec fn local_var_step(st: BuildV, n: SyntaxNode) -> BuildV {
    let (vname, ty) = var_decl_of(n);
    if vname.len() > 0 && ty.len() > 0 {
        register_v(st, vname, ty, spec_line(n))
    } else {
        st
    }
}

/// Updates the tables for an assignment: a constructed object rebinds the
/// left side to the constructed type; a method-call result rebinds it to
/// the called method's declared return type when one resolves.
pub open spec fn assign_step(st: BuildV, n: SyntaxNode) -> BuildV {
    match spec_child_by_field(n, "left"@) {
        None => st,
        Some(l) => match spec_child_by_field(n, "right"@) {
            None => st,
            Some(r) => {
                let lname = l.text@;
                if r.kind@ == "object_creation_expression"@ {
                    match spec_child_by_field(r, "type"@) {
                        Some(t) => register_v(st, lname, t.text@, spec_line(n)),
                        None => st,
                    }
                } else if r.kind@ == "method_invocation"@ {
                    let mc = call_v(st, r);
                    match ret_type_in(st.classes, 0, mc.target, mc.method) {
                        Some(rt) => BuildV {
                            infer: st.infer.insert(lname, rt),
                            infer_keys: if st.infer.contains_key(lname) {
                                st.infer_keys
                            } else {
                                st.infer_keys.push(lname)
                            },
                            ..st
                        },
                        None => st,
                    }
                } else {
                    st
                }
            },
        },
    }
}

/// What one node contributes before its children are walked.
pub open spec fn step_node(st: BuildV, n: SyntaxNode) -> BuildV {
    if n.kind@ == "class_declaration"@ {
        class_step(st, n)
    } else if n.kind@ == "interface_declaration"@ {
        interface_step(st, n)
    } else if n.kind@ == "field_declaration"@ {
        field_step(st, n)
    } else if n.kind@ == "method_declaration"@ {
        method_step(st, n)
    } else if n.kind@ == "constructor_declaration"@ {
        ctor_step(st, n)
    } else if n.kind@ == "method_invocation"@ {
        invocation_step(st, n)
    } else if n.kind@ == "local_variable_declaration"@ {
        local_var_step(st, n)
    } else if n.kind@ == "assignment_expression"@ {
        assign_step(st, n)
    } else {
        st
    }
}

/// The state after walking a node: its own contribution, then its children
/// in order; leaving a member declaration clears the remembered name.
pub open spec fn build_node(st: BuildV, n: SyntaxNode) -> BuildV
    decreases n, 1nat, 0nat,
{
    let st2 = build_children(step_node(st, n), n, 0);
    if n.kind@ == "method_declaration"@ || n.kind@ == "constructor_declaration"@ {
        BuildV { cur_method: None, ..st2 }
    } else {
        st2
    }
}

/// The state after walking the children of `n` from position `i` on.
pub open spec fn build_children(st: BuildV, n: SyntaxNode, i: int) -> BuildV
    decreases n, 0nat, n.children@.len() - i,
{
    if i < 0 || i >= n.children@.len() {
        st
    } else {
        build_children(build_node(st, n.children@[i]), n, i + 1)
    }
}

/// The finished analysis of a tree: one walk from the initial state, with
/// the last open class flushed.
pub open spec fn spec_analysis(root: SyntaxNode) -> AnalysisV {
    let st = flush_v(build_node(init_build(), root));
    AnalysisV {
        classes: st.classes,
        rels: st.rels,
        registry: st.registry,
        registry_keys: st.registry_keys,
        infer: st.infer,
        infer_keys: st.infer_keys,
    }
}

/// The walking analyzer: one instance accumulates the model over one tree.
pub struct JavaAnalyzer {
    current_class: Option<JavaClass>,
    classes: Vec<JavaClass>,
    relationships: Vec<Relationship>,
    object_registry: Dict<ObjectInfo>,
    type_inference: Dict<String>,
    current_method: Option<String>,
}

/// Both of the analyzer's tables keep their keys unique.
pub closed spec fn builder_wf(a: JavaAnalyzer) -> bool {
    crate::dict::dict_wf(a.object_registry) && crate::dict::dict_wf(a.type_inference)
}

/// The analyzer's state as contracts see it.
pub closed spec fn builder_view(a: JavaAnalyzer) -> BuildV {
    BuildV {
        cur: match a.current_class {
            Some(c) => Some(c@),
            None => None,
        },
        classes: a.classes@.map_values(|c: JavaClass| c@),
        rels: a.relationships@.map_values(|r: Relationship| r@),
        registry: registry_view(a.object_registry),
        registry_keys: crate::dict::spec_keys(a.object_registry),
        infer: infer_view(a.type_inference),
        infer_keys: crate::dict::spec_keys(a.type_inference),
        cur_method: match a.current_method {
            Some(m) => Some(m@),
            None => None,
        },
    }
}

use vstd::string::StringExecFns;
use vstd::string::StrSliceExecFns;

/// The text of the `name` field child, or an empty string.
pub fn name_text(n: &SyntaxNode) -> (r: String)
    ensures
        r@ == name_of(*n),
{
    match n.child_by_field("name") {
        Some(c) => c.text.clone(),
        None => String::new(),
    }
}

/// The text of the `type` field child, or an empty string.
pub fn type_text(n: &SyntaxNode) -> (r: String)
    ensures
        r@ == type_field_text(*n),
{
    match n.child_by_field("type") {
        Some(c) => c.text.clone(),
        None => String::new(),
    }
}

/// The declared visibility of a member or class header.
fn visibility_of(n: &SyntaxNode) -> (r: String)
    ensures
        r@ == vis_of(*n),
{
    match n.child_by_kind("modifiers") {
        None => String::from_str("package"),
        Some(m) => {
            let mut i: usize = 0;
            while i < m.children.len()
                invariant
                    i <= m.children@.len(),
                    vis_scan(m.children@, 0) == vis_scan(m.children@, i as int),
                decreases m.children@.len() - i,
            {
                let t = &m.children[i].text;
                if str_eq(t.as_str(), "public") || str_eq(t.as_str(), "private") || str_eq(
                    t.as_str(),
                    "protected",
                ) {
                    proof {
                        assert(vis_scan(m.children@, i as int) == Some(t@));
                    }
                    return t.clone();
                }
                i = i + 1;
            }
            String::from_str("package")
        },
    }
}

/// Whether the modifiers clause carries the modifier `m`.
pub fn has_modifier(n: &SyntaxNode, m: &str) -> (r: bool)
    ensures
        r == has_mod(*n, m@),
{
    match n.child_by_kind("modifiers") {
        None => false,
        Some(md) => md.has_child_text(m),
    }
}

/// The named superclass of a class header, if any.
fn extract_extends(n: &SyntaxNode) -> (r: Option<String>)
    ensures
        match r {
            Some(s) => extends_of(*n) == Some(s@),
            None => extends_of(*n) is None,
        },
{
    match n.child_by_kind("superclass") {
        None => None,
        Some(sc) => match sc.child_by_kind("type_identifier") {
            None => None,
            Some(t) => Some(t.text.clone()),
        },
    }
}

/// The interfaces a clause of kind `clause` lists.
fn extract_iface_list(n: &SyntaxNode, clause: &str) -> (r: Vec<String>)
    ensures
        r@.map_values(|s: String| s@) == listed_ifaces(*n, clause@),
{
    let mut out: Vec<String> = Vec::new();
    proof {
        assert(out@.map_values(|s: String| s@) =~= Seq::<Seq<char>>::empty());
    }
    match n.child_by_kind(clause) {
        None => out,
        Some(cl) => match cl.child_by_kind("type_list") {
            None => out,
            Some(tl) => {
                let mut i: usize = 0;
                while i < tl.children.len()
                    invariant
                        i <= tl.children@.len(),
                        named_texts(tl.children@, 0) == out@.map_values(|s: String| s@)
                            + named_texts(tl.children@, i as int),
                    decreases tl.children@.len() - i,
                {
                    let ghost prev = out@.map_values(|s: String| s@);
                    if tl.children[i].named {
                        out.push(tl.children[i].text.clone());
                        proof {
                            assert(out@.map_values(|s: String| s@) =~= prev.push(
                                tl.children@[i as int].text@,
                            ));
                            assert(prev + named_texts(tl.children@, i as int) =~= prev.push(
                                tl.children@[i as int].text@,
                            ) + named_texts(tl.children@, i + 1));
                        }
                    }
                    i = i + 1;
                }
                proof {
                    assert(out@.map_values(|s: String| s@) + named_texts(
                        tl.children@,
                        tl.children@.len() as int,
                    ) =~= out@.map_values(|s: String| s@));
                }
                out
            },
        },
    }
}

/// The field a `field_declaration` node declares.
fn extract_field(n: &SyntaxNode) -> (r: JavaField)
    ensures
        r@ == field_v(*n),
{
    let name = match n.child_by_kind("variable_declarator") {
        Some(d) => name_text(d),
        None => String::new(),
    };
    JavaField {
        name,
        field_type: type_text(n),
        visibility: visibility_of(n),
        is_static: has_modifier(n, "static"),
        is_final: has_modifier(n, "final"),
    }
}

/// The accepted parameters of a member declaration.
fn extract_parameters(n: &SyntaxNode) -> (r: Vec<JavaParameter>)
    ensures
        r@.map_values(|p: JavaParameter| p@) == params_of(*n),
{
    let mut out: Vec<JavaParameter> = Vec::new();
    proof {
        assert(out@.map_values(|p: JavaParameter| p@) =~= Seq::<ParamV>::empty());
    }
    match n.child_by_field("parameters") {
        None => out,
        Some(ps) => {
            let mut i: usize = 0;
            while i < ps.children.len()
                invariant
                    i <= ps.children@.len(),
                    params_scan(ps.children@, 0) == out@.map_values(|p: JavaParameter| p@)
                        + params_scan(ps.children@, i as int),
                decreases ps.children@.len() - i,
            {
                let ghost prev = out@.map_values(|p: JavaParameter| p@);
                let c = &ps.children[i];
                if c.is_kind("formal_parameter") {
                    let pname = name_text(c);
                    let pty = type_text(c);
                    if !pname.as_str().is_empty() && !pty.as_str().is_empty() {
                        out.push(JavaParameter { name: pname, param_type: pty });
                        proof {
                            assert(out@.map_values(|p: JavaParameter| p@) =~= prev.push(
                                param_of(ps.children@[i as int]),
                            ));
                            assert(prev + params_scan(ps.children@, i as int) =~= prev.push(
                                param_of(ps.children@[i as int]),
                            ) + params_scan(ps.children@, i + 1));
                        }
                    }
                }
                i = i + 1;
            }
            proof {
                assert(out@.map_values(|p: JavaParameter| p@) + params_scan(
                    ps.children@,
                    ps.children@.len() as int,
                ) =~= out@.map_values(|p: JavaParameter| p@));
            }
            out
        },
    }
}

/// The constructor a `constructor_declaration` node declares.
fn extract_constructor(n: &SyntaxNode) -> (r: JavaMethod)
    ensures
        r@ == ctor_v(*n),
{
    let r = JavaMethod {
        name: name_text(n),
        return_type: String::new(),
        visibility: visibility_of(n),
        is_static: false,
        is_abstract: false,
        parameters: extract_parameters(n),
        calls: Vec::new(),
    };
    proof {
        assert(r.calls@.map_values(|c: MethodCall| c@) =~= Seq::<CallV>::empty());
    }
    r
}

/// The qualified name `a.b`.
pub fn qualify(a: &str, b: &str) -> (r: String)
    ensures
        r@ == a@ + "."@ + b@,
{
    let mut s = String::from_str(a);
    s.append(".");
    s.append(b);
    s
}

impl JavaAnalyzer {
    /// A fresh analyzer with empty state.
    pub fn new() -> (r: JavaAnalyzer)
        ensures
            builder_view(r) == init_build(),
            builder_wf(r),
    {
        let r = JavaAnalyzer {
            current_class: None,
            classes: Vec::new(),
            relationships: Vec::new(),
            object_registry: Dict::new(),
            type_inference: Dict::new(),
            current_method: None,
        };
        proof {
            assert(builder_view(r).classes =~= init_build().classes);
            assert(builder_view(r).rels =~= init_build().rels);
            assert(builder_view(r).registry =~= init_build().registry);
            assert(builder_view(r).infer =~= init_build().infer);
            assert(builder_view(r) =~= init_build());
        }
        r
    }

    /// Takes the class being built out, leaving none open.
    fn take_current(&mut self) -> (r: Option<JavaClass>)
        ensures
            r == old(self).current_class,
            final(self).current_class is None,
            final(self).classes == old(self).classes,
            final(self).relationships == old(self).relationships,
            final(self).object_registry == old(self).object_registry,
            final(self).type_inference == old(self).type_inference,
            final(self).current_method == old(self).current_method,
    {
        let mut tmp: Option<JavaClass> = None;
        core::mem::swap(&mut tmp, &mut self.current_class);
        tmp
    }

    /// Closes the class being built, if any, onto the completed list.
    fn flush_current(&mut self)
        requires
            builder_wf(*old(self)),
        ensures
            builder_wf(*final(self)),
            builder_view(*final(self)) == flush_v(builder_view(*old(self))),
    {
        let cur = self.take_current();
        match cur {
            Some(c) => {
                let ghost prev = self.classes@.map_values(|x: JavaClass| x@);
                self.classes.push(c);
                proof {
                    assert(self.classes@.map_values(|x: JavaClass| x@) =~= prev.push(c@));
                    assert(builder_view(*self) =~= flush_v(builder_view(*old(self))));
                }
            },
            None => {
                proof {
                    assert(builder_view(*self) =~= flush_v(builder_view(*old(self))));
                }
            },
        }
    }

    /// The class a receiver name resolves to, by the fixed priority order:
    /// inference table, object registry, then a field of the open class.
    fn resolve_object_class(&self, object_name: &str) -> (r: Option<String>)
        ensures
            match r {
                Some(s) => resolve_v(builder_view(*self), object_name@) == Some(s@),
                None => resolve_v(builder_view(*self), object_name@) is None,
            },
    {
        match self.type_inference.get(object_name) {
            Some(c) => {
                return Some(c.clone());
            },
            None => {},
        }
        match self.object_registry.get(object_name) {
            Some(o) => {
                return Some(o.class_name.clone());
            },
            None => {},
        }
        match &self.current_class {
            Some(c) => {
                let ghost fsv = c@.fields;
                let mut i: usize = 0;
                while i < c.fields.len()
                    invariant
                        i <= c.fields@.len(),
                        fsv == c@.fields,
                        fsv.len() == c.fields@.len(),
                        field_type_find(fsv, 0, object_name@) == field_type_find(
                            fsv,
                            i as int,
                            object_name@,
                        ),
                    decreases c.fields@.len() - i,
                {
                    proof {
                        assert(fsv[i as int] == c.fields@[i as int]@);
                    }
                    if str_eq(c.fields[i].name.as_str(), object_name) {
                        return Some(c.fields[i].field_type.clone());
                    }
                    i = i + 1;
                }
                None
            },
            None => None,
        }
    }

    /// The call site a `method_invocation` node describes, resolved against
    /// the current state.
    fn extract_enhanced_method_call(&self, n: &SyntaxNode) -> (r: MethodCall)
        ensures
            r@ == call_v(builder_view(*self), *n),
    {
        let method_name = name_text(n);
        match n.child_by_field("object") {
            None => MethodCall {
                caller_object: None,
                method_name,
                target_class: String::from_str("unknown"),
                is_static_call: false,
            },
            Some(ob) => {
                let oname = ob.text.clone();
                match self.resolve_object_class(oname.as_str()) {
                    Some(cls) => MethodCall {
                        caller_object: Some(oname),
                        method_name,
                        target_class: cls,
                        is_static_call: false,
                    },
                    None => {
                        if starts_uppercase(oname.as_str()) {
                            MethodCall {
                                caller_object: Some(oname.clone()),
                                method_name,
                                target_class: oname,
                                is_static_call: true,
                            }
                        } else {
                            MethodCall {
                                caller_object: Some(oname.clone()),
                                method_name,
                                target_class: oname,
                                is_static_call: false,
                            }
                        }
                    },
                }
            },
        }
    }

    /// The declared return type of `method_name` on `class_name` among the
    /// completed classes; a constructor reports the class name itself.
    fn get_method_return_type(&self, class_name: &str, method_name: &str) -> (r: Option<String>)
        ensures
            match r {
                Some(s) => ret_type_in(builder_view(*self).classes, 0, class_name@, method_name@)
                    == Some(s@),
                None => ret_type_in(builder_view(*self).classes, 0, class_name@, method_name@)
                    is None,
            },
    {
        let ghost csv = builder_view(*self).classes;
        let mut i: usize = 0;
        while i < self.classes.len()
            invariant
                i <= self.classes@.len(),
                csv == builder_view(*self).classes,
                csv.len() == self.classes@.len(),
                ret_type_in(csv, 0, class_name@, method_name@) == ret_type_in(
                    csv,
                    i as int,
                    class_name@,
                    method_name@,
                ),
            decreases self.classes@.len() - i,
        {
            proof {
                assert(csv[i as int] == self.classes@[i as int]@);
            }
            let c = &self.classes[i];
            if str_eq(c.name.as_str(), class_name) {
                let ghost msv = c@.methods;
                let mut j: usize = 0;
                while j < c.methods.len()
                    invariant
                        j <= c.methods@.len(),
                        msv == self.classes@[i as int]@.methods,
                        msv.len() == c.methods@.len(),
                        method_ret_find(msv, 0, method_name@) == method_ret_find(
                            msv,
                            j as int,
                            method_name@,
                        ),
                    decreases c.methods@.len() - j,
                {
                    proof {
                        assert(msv[j as int] == c.methods@[j as int]@);
                    }
                    if str_eq(c.methods[j].name.as_str(), method_name) {
                        return Some(c.methods[j].return_type.clone());
                    }
                    j = j + 1;
                }
                let ghost ksv = c@.ctors;
                let mut j: usize = 0;
                while j < c.constructors.len()
                    invariant
                        j <= c.constructors@.len(),
                        ksv == self.classes@[i as int]@.ctors,
                        ksv.len() == c.constructors@.len(),
                        ctor_name_found(ksv, 0, method_name@) == ctor_name_found(
                            ksv,
                            j as int,
                            method_name@,
                        ),
                    decreases c.constructors@.len() - j,
                {
                    proof {
                        assert(ksv[j as int] == c.constructors@[j as int]@);
                    }
                    if str_eq(c.constructors[j].name.as_str(), method_name) {
                        return Some(String::from_str(class_name));
                    }
                    j = j + 1;
                }
            }
            i = i + 1;
        }
        None
    }

    /// The method a `method_declaration` node declares, with the call sites
    /// of its top-level body statements.
    fn extract_method(&self, n: &SyntaxNode, in_iface: bool) -> (r: JavaMethod)
        ensures
            r@ == method_v(builder_view(*self), *n, in_iface),
    {
        let return_type = match n.child_by_field("type") {
            Some(t) => t.text.clone(),
            None => String::from_str("void"),
        };
        let mut calls: Vec<MethodCall> = Vec::new();
        proof {
            assert(calls@.map_values(|c: MethodCall| c@) =~= Seq::<CallV>::empty());
        }
        match n.child_by_field("body") {
            None => {},
            Some(b) => {
                let ghost stv = builder_view(*self);
                let mut i: usize = 0;
                while i < b.children.len()
                    invariant
                        i <= b.children@.len(),
                        calls_scan(stv, b.children@, 0) == calls@.map_values(|c: MethodCall| c@)
                            + calls_scan(stv, b.children@, i as int),
                    decreases b.children@.len() - i,
                {
                    let ghost prev = calls@.map_values(|c: MethodCall| c@);
                    let c = &b.children[i];
                    let is_call_stmt = c.is_kind("expression_statement") && c.children.len() > 0
                        && c.children[0].is_kind("method_invocation");
                    if is_call_stmt {
                        let mc = self.extract_enhanced_method_call(&c.children[0]);
                        calls.push(mc);
                        proof {
                            assert(calls@.map_values(|x: MethodCall| x@) =~= prev.push(
                                call_v(stv, b.children@[i as int].children@[0]),
                            ));
                            assert(prev + calls_scan(stv, b.children@, i as int) =~= prev.push(
                                call_v(stv, b.children@[i as int].children@[0]),
                            ) + calls_scan(stv, b.children@, i + 1));
                        }
                    }
                    i = i + 1;
                }
                proof {
                    assert(calls@.map_values(|c: MethodCall| c@) + calls_scan(
                        stv,
                        b.children@,
                        b.children@.len() as int,
                    ) =~= calls@.map_values(|c: MethodCall| c@));
                }
            },
        }
        JavaMethod {
            name: name_text(n),
            return_type,
            visibility: visibility_of(n),
            is_static: has_modifier(n, "static"),
            is_abstract: has_modifier(n, "abstract") || in_iface,
            parameters: extract_parameters(n),
            calls,
        }
    }
}

impl JavaAnalyzer {
    /// Binds a variable to its class in both tables.
    fn register_object(&mut self, var: String, cls: String, line: usize)
        requires
            builder_wf(*old(self)),
        ensures
            builder_wf(*final(self)),
            builder_view(*final(self)) == register_v(builder_view(*old(self)), var@, cls@, line),
    {
        let info = ObjectInfo {
            variable_name: var.clone(),
            class_name: cls.clone(),
            declared_at_line: line,
            is_parameter: false,
        };
        self.type_inference.insert(var.clone(), cls);
        self.object_registry.insert(var, info);
        proof {
            assert(infer_view(self.type_inference) =~= infer_view(
                old(self).type_inference,
            ).insert(info.variable_name@, info.class_name@));
            assert(registry_view(self.object_registry) =~= registry_view(
                old(self).object_registry,
            ).insert(info.variable_name@, info@));
            assert(builder_view(*self) =~= register_v(
                builder_view(*old(self)),
                info.variable_name@,
                info.class_name@,
                line,
            ));
        }
    }

    /// Opens a new class from a `class_declaration` header and records its
    /// Extends and Implements edges.
    fn process_class_declaration(&mut self, n: &SyntaxNode)
        requires
            builder_wf(*old(self)),
        ensures
            builder_wf(*final(self)),
            builder_view(*final(self)) == class_step(builder_view(*old(self)), *n),
    {
        self.flush_current();
        let ghost st1 = builder_view(*self);
        let name = name_text(n);
        let visibility = visibility_of(n);
        let is_abstract = has_modifier(n, "abstract");
        let extends = extract_extends(n);
        let implements = extract_iface_list(n, "super_interfaces");
        let ghost snap = *self;
        match &extends {
            Some(sup) => {
                let ghost base = self.relationships@.map_values(|r: Relationship| r@);
                self.relationships.push(
                    Relationship {
                        from: name.clone(),
                        to: sup.clone(),
                        relationship_type: RelationshipType::Extends,
                    },
                );
                proof {
                    assert(self.relationships@.map_values(|r: Relationship| r@) =~= base + ext_rels(
                        name@,
                        extends_of(*n),
                    ));
                }
            },
            None => {
                proof {
                    assert(self.relationships@.map_values(|r: Relationship| r@) =~= st1.rels
                        + ext_rels(name@, extends_of(*n)));
                }
            },
        }
        let ghost base2 = self.relationships@.map_values(|r: Relationship| r@);
        let ghost impls = listed_ifaces(*n, "super_interfaces"@);
        let ghost snap2 = *self;
        let mut i: usize = 0;
        while i < implements.len()
            invariant
                i <= implements@.len(),
                implements@.map_values(|s: String| s@) == impls,
                impls.len() == implements@.len(),
                self.current_class == snap2.current_class,
                self.classes == snap2.classes,
                self.object_registry == snap2.object_registry,
                self.type_inference == snap2.type_inference,
                self.current_method == snap2.current_method,
                base2 + impl_rels(name@, impls, 0) == self.relationships@.map_values(
                    |r: Relationship| r@,
                ) + impl_rels(name@, impls, i as int),
            decreases implements@.len() - i,
        {
            let ghost prev = self.relationships@.map_values(|r: Relationship| r@);
            self.relationships.push(
                Relationship {
                    from: name.clone(),
                    to: implements[i].clone(),
                    relationship_type: RelationshipType::Implements,
                },
            );
            i = i + 1;
            proof {
                assert(self.relationships@.map_values(|r: Relationship| r@) =~= prev.push(
                    RelV { from: name@, to: impls[i - 1], kind: RelationshipType::Implements },
                ));
                assert(prev + impl_rels(name@, impls, i - 1) =~= prev.push(
                    RelV { from: name@, to: impls[i - 1], kind: RelationshipType::Implements },
                ) + impl_rels(name@, impls, i as int));
            }
        }
        let cls = JavaClass {
            name,
            visibility,
            is_abstract,
            is_interface: false,
            extends,
            implements,
            fields: Vec::new(),
            methods: Vec::new(),
            constructors: Vec::new(),
        };
        proof {
            assert(cls@.fields =~= Seq::<FieldV>::empty());
            assert(cls@.methods =~= Seq::<MethodV>::empty());
            assert(cls@.ctors =~= Seq::<MethodV>::empty());
        }
        self.current_class = Some(cls);
        proof {
            let stf = builder_view(*self);
            let sts = class_step(builder_view(*old(self)), *n);
            assert(base2 + impl_rels(name_of(*n), impls, 0) =~= self.relationships@.map_values(
                |r: Relationship| r@,
            ));
            assert(stf.rels =~= sts.rels);
            assert(stf.cur.unwrap() =~= sts.cur.unwrap());
            assert(stf =~= sts);
        }
    }

    /// Opens a new interface from an `interface_declaration` header and
    /// records one Implements edge per listed interface of its extends
    /// clause.
    fn process_interface_declaration(&mut self, n: &SyntaxNode)
        requires
            builder_wf(*old(self)),
        ensures
            builder_wf(*final(self)),
            builder_view(*final(self)) == interface_step(builder_view(*old(self)), *n),
    {
        self.flush_current();
        let ghost st1 = builder_view(*self);
        let name = name_text(n);
        let implements = extract_iface_list(n, "extends_interfaces");
        let ghost base2 = self.relationships@.map_values(|r: Relationship| r@);
        let ghost impls = listed_ifaces(*n, "extends_interfaces"@);
        let ghost snap2 = *self;
        let mut i: usize = 0;
        while i < implements.len()
            invariant
                i <= implements@.len(),
                implements@.map_values(|s: String| s@) == impls,
                impls.len() == implements@.len(),
                self.current_class == snap2.current_class,
                self.classes == snap2.classes,
                self.object_registry == snap2.object_registry,
                self.type_inference == snap2.type_inference,
                self.current_method == snap2.current_method,
                base2 + impl_rels(name@, impls, 0) == self.relationships@.map_values(
                    |r: Relationship| r@,
                ) + impl_rels(name@, impls, i as int),
            decreases implements@.len() - i,
        {
            let ghost prev = self.relationships@.map_values(|r: Relationship| r@);
            self.relationships.push(
                Relationship {
                    from: name.clone(),
                    to: implements[i].clone(),
                    relationship_type: RelationshipType::Implements,
                },
            );
            i = i + 1;
            proof {
                assert(self.relationships@.map_values(|r: Relationship| r@) =~= prev.push(
                    RelV { from: name@, to: impls[i - 1], kind: RelationshipType::Implements },
                ));
                assert(prev + impl_rels(name@, impls, i - 1) =~= prev.push(
                    RelV { from: name@, to: impls[i - 1], kind: RelationshipType::Implements },
                ) + impl_rels(name@, impls, i as int));
            }
        }
        let cls = JavaClass {
            name,
            visibility: String::from_str("public"),
            is_abstract: false,
            is_interface: true,
            extends: None,
            implements,
            fields: Vec::new(),
            methods: Vec::new(),
            constructors: Vec::new(),
        };
        proof {
            assert(cls@.fields =~= Seq::<FieldV>::empty());
            assert(cls@.methods =~= Seq::<MethodV>::empty());
            assert(cls@.ctors =~= Seq::<MethodV>::empty());
        }
        self.current_class = Some(cls);
        proof {
            let stf = builder_view(*self);
            let sts = interface_step(builder_view(*old(self)), *n);
            assert(base2 + impl_rels(name_of(*n), impls, 0) =~= self.relationships@.map_values(
                |r: Relationship| r@,
            ));
            assert(stf.rels =~= sts.rels);
            assert(stf.cur.unwrap() =~= sts.cur.unwrap());
            assert(stf =~= sts);
        }
    }

    /// Adds a declared field to the class being built, if one is open.
    fn process_field_declaration(&mut self, n: &SyntaxNode)
        requires
            builder_wf(*old(self)),
        ensures
            builder_wf(*final(self)),
            builder_view(*final(self)) == field_step(builder_view(*old(self)), *n),
    {
        let f = extract_field(n);
        let cur = self.take_current();
        match cur {
            Some(mut c) => {
                let ghost prevf = c@.fields;
                c.fields.push(f);
                proof {
                    assert(c.fields@.map_values(|x: JavaField| x@) =~= prevf.push(field_v(*n)));
                }
                self.current_class = Some(c);
                proof {
                    let stf = builder_view(*self);
                    let sts = field_step(builder_view(*old(self)), *n);
                    assert(stf.cur.unwrap() =~= sts.cur.unwrap());
                    assert(stf =~= sts);
                }
            },
            None => {
                proof {
                    assert(builder_view(*self) =~= field_step(builder_view(*old(self)), *n));
                }
            },
        }
    }

    /// Adds a declared method to the class being built and remembers its
    /// name while its body is walked.
    fn process_method_declaration(&mut self, n: &SyntaxNode)
        requires
            builder_wf(*old(self)),
        ensures
            builder_wf(*final(self)),
            builder_view(*final(self)) == method_step(builder_view(*old(self)), *n),
    {
        let in_iface = match &self.current_class {
            Some(c) => c.is_interface,
            None => false,
        };
        let m = self.extract_method(n, in_iface);
        let name = name_text(n);
        let cur = self.take_current();
        match cur {
            Some(mut c) => {
                let ghost prevm = c@.methods;
                c.methods.push(m);
                proof {
                    assert(c.methods@.map_values(|x: JavaMethod| x@) =~= prevm.push(
                        method_v(builder_view(*old(self)), *n, in_iface),
                    ));
                }
                self.current_class = Some(c);
            },
            None => {},
        }
        self.current_method = Some(name);
        proof {
            let stf = builder_view(*self);
            let sts = method_step(builder_view(*old(self)), *n);
            if old(self).current_class is Some {
                assert(stf.cur.unwrap() =~= sts.cur.unwrap());
            }
            assert(stf =~= sts);
        }
    }

    /// Adds a declared constructor to the class being built and remembers
    /// its name while its body is walked.
    fn process_constructor_declaration(&mut self, n: &SyntaxNode)
        requires
            builder_wf(*old(self)),
        ensures
            builder_wf(*final(self)),
            builder_view(*final(self)) == ctor_step(builder_view(*old(self)), *n),
    {
        let m = extract_constructor(n);
        let name = name_text(n);
        let cur = self.take_current();
        match cur {
            Some(mut c) => {
                let ghost prevm = c@.ctors;
                c.constructors.push(m);
                proof {
                    assert(c.constructors@.map_values(|x: JavaMethod| x@) =~= prevm.push(
                        ctor_v(*n),
                    ));
                }
                self.current_class = Some(c);
            },
            None => {},
        }
        self.current_method = Some(name);
        proof {
            let stf = builder_view(*self);
            let sts = ctor_step(builder_view(*old(self)), *n);
            if old(self).current_class is Some {
                assert(stf.cur.unwrap() =~= sts.cur.unwrap());
            }
            assert(stf =~= sts);
        }
    }

    /// Records one MethodCall edge for an invocation inside a class, from
    /// the enclosing member to the resolved target method.
    fn process_method_invocation(&mut self, n: &SyntaxNode)
        requires
            builder_wf(*old(self)),
        ensures
            builder_wf(*final(self)),
            builder_view(*final(self)) == invocation_step(builder_view(*old(self)), *n),
    {
        let mc = self.extract_enhanced_method_call(n);
        let edge: Option<(String, String)> = match &self.current_class {
            None => None,
            Some(c) => {
                if mc.method_name.as_str().is_empty() {
                    None
                } else {
                    let from = match &self.current_method {
                        Some(m) => qualify(c.name.as_str(), m.as_str()),
                        None => c.name.clone(),
                    };
                    let to = qualify(mc.target_class.as_str(), mc.method_name.as_str());
                    Some((from, to))
                }
            },
        };
        match edge {
            Some((from, to)) => {
                let ghost prev = self.relationships@.map_values(|r: Relationship| r@);
                self.relationships.push(
                    Relationship { from, to, relationship_type: RelationshipType::MethodCall },
                );
                proof {
                    let sts = invocation_step(builder_view(*old(self)), *n);
                    assert(self.relationships@.map_values(|r: Relationship| r@) =~= sts.rels);
                    assert(builder_view(*self) =~= sts);
                }
            },
            None => {
                proof {
                    assert(builder_view(*self) =~= invocation_step(builder_view(*old(self)), *n));
                }
            },
        }
    }

    /// Registers a local variable declaration: a constructed type wins over
    /// the declared one.
    fn process_local_variable_declaration(&mut self, n: &SyntaxNode)
        requires
            builder_wf(*old(self)),
        ensures
            builder_wf(*final(self)),
            builder_view(*final(self)) == local_var_step(builder_view(*old(self)), *n),
    {
        let ty0 = type_text(n);
        let (vname, ty): (String, String) = match n.child_by_kind("variable_declarator") {
            None => (String::new(), ty0),
            Some(d) => {
                let nm = name_text(d);
                let t = match d.child_by_field("value") {
                    Some(v) => {
                        if v.is_kind("object_creation_expression") {
                            match v.child_by_field("type") {
                                Some(tt) => tt.text.clone(),
                                None => ty0,
                            }
                        } else {
                            ty0
                        }
                    },
                    None => ty0,
                };
                (nm, t)
            },
        };
        proof {
            assert(vname@ == var_decl_of(*n).0);
            assert(ty@ == var_decl_of(*n).1);
        }
        if !vname.as_str().is_empty() && !ty.as_str().is_empty() {
            let line = n.line();
            self.register_object(vname, ty, line);
        }
    }

    /// Updates the tables for an assignment expression: object construction
    /// rebinds to the constructed type, a call result to the called
    /// method's declared return type.
    fn process_assignment_expression(&mut self, n: &SyntaxNode)
        requires
            builder_wf(*old(self)),
        ensures
            builder_wf(*final(self)),
            builder_view(*final(self)) == assign_step(builder_view(*old(self)), *n),
    {
        let l = match n.child_by_field("left") {
            None => {
                return ;
            },
            Some(l) => l,
        };
        let r = match n.child_by_field("right") {
            None => {
                return ;
            },
            Some(r) => r,
        };
        let lname = l.text.clone();
        if r.is_kind("object_creation_expression") {
            match r.child_by_field("type") {
                Some(t) => {
                    let line = n.line();
                    self.register_object(lname, t.text.clone(), line);
                },
                None => {},
            }
        } else if r.is_kind("method_invocation") {
            let mc = self.extract_enhanced_method_call(r);
            match self.get_method_return_type(mc.target_class.as_str(), mc.method_name.as_str()) {
                Some(rt) => {
                    self.type_inference.insert(lname, rt);
                    proof {
                        let sts = assign_step(builder_view(*old(self)), *n);
                        assert(infer_view(self.type_inference) =~= sts.infer);
                        assert(builder_view(*self) =~= sts);
                    }
                },
                None => {},
            }
        }
    }

    /// Walks one node: its own contribution, then its children in order;
    /// leaving a member declaration clears the remembered member name.
    fn walk_node(&mut self, n: &SyntaxNode)
        requires
            builder_wf(*old(self)),
        ensures
            builder_wf(*final(self)),
            builder_view(*final(self)) == build_node(builder_view(*old(self)), *n),
        decreases *n,
    {
        if n.is_kind("class_declaration") {
            self.process_class_declaration(n);
        } else if n.is_kind("interface_declaration") {
            self.process_interface_declaration(n);
        } else if n.is_kind("field_declaration") {
            self.process_field_declaration(n);
        } else if n.is_kind("method_declaration") {
            self.process_method_declaration(n);
        } else if n.is_kind("constructor_declaration") {
            self.process_constructor_declaration(n);
        } else if n.is_kind("method_invocation") {
            self.process_method_invocation(n);
        } else if n.is_kind("local_variable_declaration") {
            self.process_local_variable_declaration(n);
        } else if n.is_kind("assignment_expression") {
            self.process_assignment_expression(n);
        }
        proof {
            assert(builder_view(*self) == step_node(builder_view(*old(self)), *n));
        }
        let ghost st1 = builder_view(*self);
        let mut i: usize = 0;
        while i < n.children.len()
            invariant
                i <= n.children@.len(),
                builder_wf(*self),
                build_children(st1, *n, 0) == build_children(builder_view(*self), *n, i as int),
            decreases n.children@.len() - i,
        {
            let ghost prev = builder_view(*self);
            self.walk_node(&n.children[i]);
            i = i + 1;
            proof {
                assert(build_children(prev, *n, i - 1) == build_children(
                    builder_view(*self),
                    *n,
                    i as int,
                ));
            }
        }
        proof {
            assert(build_children(builder_view(*self), *n, n.children@.len() as int)
                == builder_view(*self));
        }
        if n.is_kind("method_declaration") || n.is_kind("constructor_declaration") {
            self.current_method = None;
            proof {
                assert(builder_view(*self) =~= build_node(builder_view(*old(self)), *n));
            }
        } else {
            proof {
                assert(builder_view(*self) =~= build_node(builder_view(*old(self)), *n));
            }
        }
    }

    /// One full analysis of a parsed tree: a single walk from a fresh
    /// state, deterministic in the tree alone.
    pub fn analyze(&mut self, root: &SyntaxNode) -> (r: AnalysisResult)
        ensures
            r@ == spec_analysis(*root),
    {
        *self = JavaAnalyzer::new();
        self.walk_node(root);
        self.flush_current();
        let mut classes: Vec<JavaClass> = Vec::new();
        core::mem::swap(&mut classes, &mut self.classes);
        let mut relationships: Vec<Relationship> = Vec::new();
        core::mem::swap(&mut relationships, &mut self.relationships);
        let mut object_registry: Dict<ObjectInfo> = Dict::new();
        core::mem::swap(&mut object_registry, &mut self.object_registry);
        let mut type_inference: Dict<String> = Dict::new();
        core::mem::swap(&mut type_inference, &mut self.type_inference);
        let r = AnalysisResult { classes, relationships, object_registry, type_inference };
        proof {
            assert(r@ =~= spec_analysis(*root));
        }
        r
    }
}

proof fn lemma_impl_rels_kinds(name: Seq<char>, list: Seq<Seq<char>>, i: int)
    ensures
        forall|j: int|
            0 <= j < impl_rels(name, list, i).len() ==> (#[trigger] impl_rels(name, list, i)[j]).kind
                == RelationshipType::Implements,
    decreases list.len() - i,
{
    if 0 <= i < list.len() {
        lemma_impl_rels_kinds(name, list, i + 1);
    }
}

/// Law: a class declaration with an `extends` clause adds exactly one
/// Extends edge, from the declaring class to the named superclass; every
/// other edge its header adds is an Implements edge, and no other kind of
/// node adds an Extends edge.
pub proof fn lemma_extends_edge(st: BuildV, n: SyntaxNode)
    requires
        n.kind@ == "class_declaration"@,
        extends_of(n) is Some,
    ensures
        step_node(st, n).rels =~= st.rels + seq![
            RelV {
                from: name_of(n),
                to: extends_of(n).unwrap(),
                kind: RelationshipType::Extends,
            },
        ] + impl_rels(name_of(n), listed_ifaces(n, "super_interfaces"@), 0),
        forall|j: int|
            0 <= j < impl_rels(name_of(n), listed_ifaces(n, "super_interfaces"@), 0).len()
                ==> (#[trigger] impl_rels(name_of(n), listed_ifaces(n, "super_interfaces"@), 0)[j]).kind
                == RelationshipType::Implements,
{
    lemma_impl_rels_kinds(name_of(n), listed_ifaces(n, "super_interfaces"@), 0);
}

/// Law: the only node kind whose step adds an Extends edge is a class
/// declaration; every step leaves the edges already recorded in place.
pub proof fn lemma_extends_only_from_class_headers(st: BuildV, n: SyntaxNode)
    requires
        n.kind@ != "class_declaration"@,
    ensures
        step_node(st, n).rels.len() >= st.rels.len(),
        forall|j: int| 0 <= j < st.rels.len() ==> step_node(st, n).rels[j] == st.rels[j],
        forall|j: int|
            st.rels.len() <= j < step_node(st, n).rels.len() ==> (#[trigger] step_node(
                st,
                n,
            ).rels[j]).kind != RelationshipType::Extends,
{
    if n.kind@ == "interface_declaration"@ {
        lemma_impl_rels_kinds(name_of(n), listed_ifaces(n, "extends_interfaces"@), 0);
        assert(step_node(st, n).rels == st.rels + impl_rels(
            name_of(n),
            listed_ifaces(n, "extends_interfaces"@),
            0,
        ));
    }
}

/// Law: a local declaration with an object-construction initializer binds
/// the variable to the constructed class in the type-inference table, and
/// registers it with that class and the declaration's source line.
pub proof fn lemma_declaration_registers(st: BuildV, n: SyntaxNode)
    requires
        n.kind@ == "local_variable_declaration"@,
        var_decl_of(n).0.len() > 0,
        var_decl_of(n).1.len() > 0,
    ensures
        step_node(st, n).infer == st.infer.insert(var_decl_of(n).0, var_decl_of(n).1),
        step_node(st, n).registry == st.registry.insert(
            var_decl_of(n).0,
            ObjV {
                var: var_decl_of(n).0,
                class: var_decl_of(n).1,
                line: spec_line(n),
                is_param: false,
            },
        ),
{
    reveal_strlit("class_declaration");
    reveal_strlit("interface_declaration");
    reveal_strlit("field_declaration");
    reveal_strlit("method_declaration");
    reveal_strlit("constructor_declaration");
    reveal_strlit("method_invocation");
    reveal_strlit("local_variable_declaration");
    reveal_strlit("assignment_expression");
    assert(("local_variable_declaration"@).len() == 26);
    assert(("class_declaration"@).len() == 17);
    assert(("interface_declaration"@).len() == 21);
    assert(("field_declaration"@)[0] == 'f');
    assert(("method_declaration"@).len() == 18);
    assert(("constructor_declaration"@).len() == 23);
    assert(("method_invocation"@)[0] == 'm');
    assert(step_node(st, n) == local_var_step(st, n));
}

/// Law: a method declared while an interface is open is recorded abstract,
/// with or without an `abstract` modifier of its own.
pub proof fn lemma_interface_methods_abstract(st: BuildV, n: SyntaxNode)
    requires
        n.kind@ == "method_declaration"@,
        st.cur is Some,
        st.cur.unwrap().is_interface,
    ensures
        step_node(st, n).cur.unwrap().methods == st.cur.unwrap().methods.push(
            method_v(st, n, true),
        ),
        step_node(st, n).cur.unwrap().methods.last().is_abstract,
{
    reveal_strlit("class_declaration");
    reveal_strlit("interface_declaration");
    reveal_strlit("field_declaration");
    reveal_strlit("method_declaration");
    reveal_strlit("constructor_declaration");
    reveal_strlit("method_invocation");
    reveal_strlit("local_variable_declaration");
    reveal_strlit("assignment_expression");
    assert(("method_declaration"@)[0] == 'm');
    assert(("class_declaration"@)[0] == 'c');
    assert(("field_declaration"@)[0] == 'f');
    assert(("interface_declaration"@).len() == 21);
    assert(("method_declaration"@).len() == 18);
    assert(n.kind@ != "class_declaration"@);
    assert(n.kind@ != "interface_declaration"@);
    assert(n.kind@ != "field_declaration"@);
    assert(step_node(st, n) == method_step(st, n));
}

/// Law: the analysis is a function of the tree alone — two runs on
/// structurally identical input yield structurally identical results.
/// `analyze` pins each run's result to `spec_analysis` of its tree.
pub proof fn lemma_analysis_deterministic(a1: AnalysisV, a2: AnalysisV, t: SyntaxNode)
    requires
        a1 == spec_analysis(t),
        a2 == spec_analysis(t),
    ensures
        a1 == a2,
{
}

/// The Extends edges among a run's relationships.
pub open spec fn ext_edges(rels: Seq<RelV>) -> Seq<RelV> {
    rels.filter(|r: RelV| r.kind == RelationshipType::Extends)
}

/// The Extends edges a subtree owes: one per class declaration carrying an
/// `extends` clause, from the declaring class to its named superclass, in
/// walk order.
pub open spec fn tree_ext(n: SyntaxNode) -> Seq<RelV>
    decreases n, 1nat, 0nat,
{
    (if n.kind@ == "class_declaration"@ {
        ext_rels(name_of(n), extends_of(n))
    } else {
        Seq::<RelV>::empty()
    }) + tree_ext_children(n, 0)
}

/// The Extends edges the subtrees from position `i` on owe.
pub open spec fn tree_ext_children(n: SyntaxNode, i: int) -> Seq<RelV>
    decreases n, 0nat, n.children@.len() - i,
{
    if i < 0 || i >= n.children@.len() {
        Seq::empty()
    } else {
        tree_ext(n.children@[i]) + tree_ext_children(n, i + 1)
    }
}

proof fn lemma_filter_singleton(r: RelV, pred: spec_fn(RelV) -> bool)
    ensures
        seq![r].filter(pred) == if pred(r) {
            seq![r]
        } else {
            Seq::<RelV>::empty()
        },
{
    reveal(Seq::filter);
    assert(seq![r].drop_last() =~= Seq::<RelV>::empty());
    assert(Seq::<RelV>::empty().filter(pred) =~= Seq::<RelV>::empty());
    if pred(r) {
        assert(seq![r].filter(pred) =~= seq![r]);
    } else {
        assert(seq![r].filter(pred) =~= Seq::<RelV>::empty());
    }
}

proof fn lemma_impl_rels_no_ext(name: Seq<char>, list: Seq<Seq<char>>, i: int)
    ensures
        ext_edges(impl_rels(name, list, i)) == Seq::<RelV>::empty(),
    decreases list.len() - i,
{
    broadcast use vstd::seq_lib::group_seq_properties;

    let pred = |r: RelV| r.kind == RelationshipType::Extends;
    if i < 0 || i >= list.len() {
        reveal(Seq::filter);
        assert(ext_edges(Seq::<RelV>::empty()) =~= Seq::<RelV>::empty());
    } else {
        lemma_impl_rels_no_ext(name, list, i + 1);
        let e = RelV { from: name, to: list[i], kind: RelationshipType::Implements };
        lemma_filter_singleton(e, pred);
        Seq::filter_distributes_over_add(seq![e], impl_rels(name, list, i + 1), pred);
        assert(ext_edges(impl_rels(name, list, i)) =~= Seq::<RelV>::empty());
    }
}

proof fn lemma_ext_rels_all_ext(name: Seq<char>, ext: Option<Seq<char>>)
    ensures
        ext_edges(ext_rels(name, ext)) == ext_rels(name, ext),
{
    let pred = |r: RelV| r.kind == RelationshipType::Extends;
    match ext {
        Some(sup) => {
            lemma_filter_singleton(
                RelV { from: name, to: sup, kind: RelationshipType::Extends },
                pred,
            );
        },
        None => {
            reveal(Seq::filter);
            assert(ext_edges(Seq::<RelV>::empty()) =~= Seq::<RelV>::empty());
        },
    }
}

proof fn lemma_step_ext(st: BuildV, n: SyntaxNode)
    ensures
        ext_edges(step_node(st, n).rels) == ext_edges(st.rels) + (if n.kind@
            == "class_declaration"@ {
            ext_rels(name_of(n), extends_of(n))
        } else {
            Seq::<RelV>::empty()
        }),
{
    broadcast use vstd::seq_lib::group_seq_properties;

    let pred = |r: RelV| r.kind == RelationshipType::Extends;
    if n.kind@ == "class_declaration"@ {
        let name = name_of(n);
        let ext = ext_rels(name, extends_of(n));
        let impls = impl_rels(name, listed_ifaces(n, "super_interfaces"@), 0);
        Seq::filter_distributes_over_add(st.rels + ext, impls, pred);
        Seq::filter_distributes_over_add(st.rels, ext, pred);
        lemma_ext_rels_all_ext(name, extends_of(n));
        lemma_impl_rels_no_ext(name, listed_ifaces(n, "super_interfaces"@), 0);
        assert(ext_edges(step_node(st, n).rels) =~= ext_edges(st.rels) + ext);
    } else if n.kind@ == "interface_declaration"@ {
        let name = name_of(n);
        let impls = impl_rels(name, listed_ifaces(n, "extends_interfaces"@), 0);
        Seq::filter_distributes_over_add(st.rels, impls, pred);
        lemma_impl_rels_no_ext(name, listed_ifaces(n, "extends_interfaces"@), 0);
        assert(ext_edges(step_node(st, n).rels) =~= ext_edges(st.rels) + Seq::<RelV>::empty());
    } else if n.kind@ == "method_invocation"@ {
        match st.cur {
            None => {
                assert(ext_edges(step_node(st, n).rels) =~= ext_edges(st.rels)
                    + Seq::<RelV>::empty());
            },
            Some(c) => {
                let mc = call_v(st, n);
                if mc.method.len() == 0 {
                    assert(ext_edges(step_node(st, n).rels) =~= ext_edges(st.rels)
                        + Seq::<RelV>::empty());
                } else {
                    let edge = RelV {
                        from: qual_v(c.name, st.cur_method),
                        to: mc.target + "."@ + mc.method,
                        kind: RelationshipType::MethodCall,
                    };
                    assert(st.rels.push(edge) =~= st.rels + seq![edge]);
                    Seq::filter_distributes_over_add(st.rels, seq![edge], pred);
                    lemma_filter_singleton(edge, pred);
                    assert(ext_edges(step_node(st, n).rels) =~= ext_edges(st.rels)
                        + Seq::<RelV>::empty());
                }
            },
        }
    } else {
        assert(step_node(st, n).rels == st.rels);
        assert(ext_edges(step_node(st, n).rels) =~= ext_edges(st.rels) + Seq::<RelV>::empty());
    }
}

proof fn lemma_build_ext(st: BuildV, n: SyntaxNode)
    ensures
        ext_edges(build_node(st, n).rels) == ext_edges(st.rels) + tree_ext(n),
    decreases n, 1nat, 0nat,
{
    broadcast use vstd::seq_lib::group_seq_properties;

    lemma_step_ext(st, n);
    lemma_children_ext(step_node(st, n), n, 0);
    assert(ext_edges(build_node(st, n).rels) =~= ext_edges(st.rels) + tree_ext(n));
}

proof fn lemma_children_ext(st: BuildV, n: SyntaxNode, i: int)
    ensures
        ext_edges(build_children(st, n, i).rels) == ext_edges(st.rels) + tree_ext_children(n, i),
    decreases n, 0nat, n.children@.len() - i,
{
    broadcast use vstd::seq_lib::group_seq_properties;

    if i < 0 || i >= n.children@.len() {
        assert(ext_edges(build_children(st, n, i).rels) =~= ext_edges(st.rels)
            + tree_ext_children(n, i));
    } else {
        lemma_build_ext(st, n.children@[i]);
        lemma_children_ext(build_node(st, n.children@[i]), n, i + 1);
        assert(ext_edges(build_children(st, n, i).rels) =~= ext_edges(st.rels)
            + tree_ext_children(n, i));
    }
}

/// Law: over a whole analysis, the Extends edges are exactly one per class
/// declaration with an `extends` clause — from the declaring class to its
/// named superclass, in walk order — and nothing else ever adds one.
pub proof fn lemma_extends_edges_whole_run(root: SyntaxNode)
    ensures
        ext_edges(spec_analysis(root).rels) == tree_ext(root),
{
    broadcast use vstd::seq_lib::group_seq_properties;

    lemma_build_ext(init_build(), root);
    reveal(Seq::filter);
    assert(ext_edges(Seq::<RelV>::empty()) =~= Seq::<RelV>::empty());
    assert(ext_edges(spec_analysis(root).rels) =~= tree_ext(root));
}

} // verus!
