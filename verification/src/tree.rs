use vstd::prelude::*;

verus! {

use crate::strings::str_eq;

/// One node of the parsed syntax tree: its grammar kind, its raw source
/// text, the zero-based row where it starts, the name of the field it fills
/// under its parent (empty when it fills none), whether the grammar names
/// it, and its children in order.
pub struct SyntaxNode {
    pub kind: String,
    pub text: String,
    pub row: usize,
    pub field: String,
    pub named: bool,
    pub children: Vec<SyntaxNode>,
}

impl SyntaxNode {
    /// A node with the given kind, text, row, namedness and children,
    /// filling no field of its parent.
    pub fn make(kind: String, text: String, row: usize, named: bool, children: Vec<SyntaxNode>) -> (
        r: SyntaxNode)
        ensures
            r.kind == kind,
            r.text == text,
            r.row == row,
            r.named == named,
            r.children == children,
            r.field@ == Seq::<char>::empty(),
    {
        let field = String::new();
        SyntaxNode { kind, text, row, field, named, children }
    }
}

#[verifier::external_type_specification]
#[verifier::external_body]
pub struct ExNode<'a>(tree_sitter::Node<'a>);

/// The tree that parsing the source as Java yields, a function of the
/// source text alone; nothing when the parser declines the input.
pub uninterp spec fn java_parse(source: Seq<char>) -> Option<SyntaxNode>;

/// Relies on tree_sitter's Node: kind, text, start row, field names and
/// children are copied, node for node, into the library's tree.
#[verifier::external_body]
fn convert_node(node: tree_sitter::Node<'_>, source: &str) -> SyntaxNode {
    let mut children: Vec<SyntaxNode> = Vec::new();
    let mut cursor = node.walk();
    for (i, ch) in node.children(&mut cursor).enumerate() {
        let mut c = convert_node(ch, source);
        c.field = node.field_name_for_child(i as u32).unwrap_or("").to_string();
        children.push(c);
    }
    let kind = node.kind().to_string();
    let text = node.utf8_text(source.as_bytes()).unwrap_or("").to_string();
    SyntaxNode::make(kind, text, node.start_position().row, node.is_named(), children)
}

/// Relies on tree_sitter's Parser with the Java grammar: parsing is a
/// function of the source text alone, and the tree that comes back is
/// handed over as the library's own tree.
#[verifier::external_body]
pub fn parse_java(source: &str) -> (r: Option<SyntaxNode>)
    ensures
        r == java_parse(source@),
{
    let mut parser = tree_sitter::Parser::new();
    if parser.set_language(&tree_sitter_java::LANGUAGE.into()).is_err() {
        return None;
    }
    match parser.parse(source, None) {
        Some(tree) => Some(convert_node(tree.root_node(), source)),
        None => None,
    }
}

/// The first child from position `i` on that fills the field `f`.
pub open spec fn find_field_from(cs: Seq<SyntaxNode>, i: int, f: Seq<char>) -> Option<SyntaxNode>
    decreases cs.len() - i,
{
    if i < 0 || i >= cs.len() {
        None
    } else if cs[i].field@ == f {
        Some(cs[i])
    } else {
        find_field_from(cs, i + 1, f)
    }
}

/// The first child of `n` that fills the field `f`.
pub open spec fn spec_child_by_field(n: SyntaxNode, f: Seq<char>) -> Option<SyntaxNode> {
    find_field_from(n.children@, 0, f)
}

/// The first child from position `i` on whose kind is `k`.
pub open spec fn find_kind_from(cs: Seq<SyntaxNode>, i: int, k: Seq<char>) -> Option<SyntaxNode>
    decreases cs.len() - i,
{
    if i < 0 || i >= cs.len() {
        None
    } else if cs[i].kind@ == k {
        Some(cs[i])
    } else {
        find_kind_from(cs, i + 1, k)
    }
}

/// The first child of `n` whose kind is `k`.
pub open spec fn spec_child_by_kind(n: SyntaxNode, k: Seq<char>) -> Option<SyntaxNode> {
    find_kind_from(n.children@, 0, k)
}

/// Whether some child from position `i` on has exactly the text `t`.
pub open spec fn has_text_from(cs: Seq<SyntaxNode>, i: int, t: Seq<char>) -> bool
    decreases cs.len() - i,
{
    if i < 0 || i >= cs.len() {
        false
    } else if cs[i].text@ == t {
        true
    } else {
        has_text_from(cs, i + 1, t)
    }
}

/// Whether some child of `n` has exactly the text `t`.
pub open spec fn spec_has_child_text(n: SyntaxNode, t: Seq<char>) -> bool {
    has_text_from(n.children@, 0, t)
}

impl SyntaxNode {
    /// The first child filling the field `f`, if any.
    pub fn child_by_field(&self, f: &str) -> (r: Option<&SyntaxNode>)
        ensures
            match r {
                Some(c) => spec_child_by_field(*self, f@) == Some(*c),
                None => spec_child_by_field(*self, f@) is None,
            },
    {
        let mut i: usize = 0;
        while i < self.children.len()
            invariant
                i <= self.children@.len(),
                find_field_from(self.children@, 0, f@) == find_field_from(
                    self.children@,
                    i as int,
                    f@,
                ),
            decreases self.children@.len() - i,
        {
            if str_eq(self.children[i].field.as_str(), f) {
                return Some(&self.children[i]);
            }
            i = i + 1;
        }
        None
    }

    /// The first child of kind `k`, if any.
    pub fn child_by_kind(&self, k: &str) -> (r: Option<&SyntaxNode>)
        ensures
            match r {
                Some(c) => spec_child_by_kind(*self, k@) == Some(*c),
                None => spec_child_by_kind(*self, k@) is None,
            },
    {
        let mut i: usize = 0;
        while i < self.children.len()
            invariant
                i <= self.children@.len(),
                find_kind_from(self.children@, 0, k@) == find_kind_from(
                    self.children@,
                    i as int,
                    k@,
                ),
            decreases self.children@.len() - i,
        {
            if str_eq(self.children[i].kind.as_str(), k) {
                return Some(&self.children[i]);
            }
            i = i + 1;
        }
        None
    }

    /// Whether some child carries exactly the text `t`.
    pub fn has_child_text(&self, t: &str) -> (r: bool)
        ensures
            r == spec_has_child_text(*self, t@),
    {
        let mut i: usize = 0;
        while i < self.children.len()
            invariant
                i <= self.children@.len(),
                has_text_from(self.children@, 0, t@) == has_text_from(
                    self.children@,
                    i as int,
                    t@,
                ),
            decreases self.children@.len() - i,
        {
            if str_eq(self.children[i].text.as_str(), t) {
                return true;
            }
            i = i + 1;
        }
        false
    }

    /// Whether this node's kind is `k`.
    pub fn is_kind(&self, k: &str) -> (r: bool)
        ensures
            r == (self.kind@ == k@),
    {
        str_eq(self.kind.as_str(), k)
    }

    /// The one-based source line where this node starts.
    pub fn line(&self) -> (r: usize)
        ensures
            r == spec_line(*self),
    {
        if self.row < usize::MAX {
            self.row + 1
        } else {
            self.row
        }
    }
}

/// The one-based source line where a node starts.
pub open spec fn spec_line(n: SyntaxNode) -> usize {
    if n.row < usize::MAX {
        (n.row + 1) as usize
    } else {
        n.row
    }
}

} // verus!
