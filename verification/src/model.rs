use vstd::prelude::*;

verus! {

/// A method of a diagram class, by name alone.
pub struct Method {
    pub name: String,
}

/// One class of a drawn diagram: its name and its methods.
pub struct Class {
    pub name: String,
    pub methods: Vec<Method>,
}

/// The kind of a drawn relationship between classes.
#[derive(Clone, Copy, PartialEq, Eq, Structural, Debug)]
pub enum RelationshipKind {
    Association,
    Aggregation,
    Composition,
    Inheritance,
}

/// A drawn relationship from one class to another.
pub struct Relationship {
    pub from: String,
    pub to: String,
    pub kind: RelationshipKind,
}

/// A whole drawn diagram.
pub struct Diagram {
    pub classes: Vec<Class>,
    pub relationships: Vec<Relationship>,
}

/// The view of a diagram class.
#[verifier::ext_equal]
pub ghost struct DClassV {
    pub name: Seq<char>,
    pub methods: Seq<Seq<char>>,
}

/// The view of a drawn relationship.
#[verifier::ext_equal]
pub ghost struct DRelV {
    pub from: Seq<char>,
    pub to: Seq<char>,
    pub kind: RelationshipKind,
}

/// The view of a whole diagram.
#[verifier::ext_equal]
pub ghost struct DiagV {
    pub classes: Seq<DClassV>,
    pub rels: Seq<DRelV>,
}

impl View for Class {
    type V = DClassV;

    open spec fn view(&self) -> DClassV {
        DClassV {
            name: self.name@,
            methods: self.methods@.map_values(|m: Method| m.name@),
        }
    }
}

impl View for Relationship {
    type V = DRelV;

    open spec fn view(&self) -> DRelV {
        DRelV { from: self.from@, to: self.to@, kind: self.kind }
    }
}

impl View for Diagram {
    type V = DiagV;

    open spec fn view(&self) -> DiagV {
        DiagV {
            classes: self.classes@.map_values(|c: Class| c@),
            rels: self.relationships@.map_values(|r: Relationship| r@),
        }
    }
}

} // verus!
