use vstd::prelude::*;

verus! {

use vstd::string::StringExecFns;

/// The kind of mistake a drawn diagram shows against the code.
#[derive(Clone, Copy, PartialEq, Eq, Structural, Debug)]
pub enum MistakeKind {
    MissingClass,
    ExtraClass,
    MissingRelationship,
    ExtraRelationship,
    WrongRelationshipType,
    MissingMethod,
}

/// One mistake to show: its kind, a message, and the elements it touches.
pub struct Mistake {
    pub kind: MistakeKind,
    pub message: String,
    pub related_elements: Vec<String>,
}

/// The view of a mistake.
#[verifier::ext_equal]
pub ghost struct MistakeV {
    pub kind: MistakeKind,
    pub msg: Seq<char>,
    pub related: Seq<Seq<char>>,
}

impl View for Mistake {
    type V = MistakeV;

    open spec fn view(&self) -> MistakeV {
        MistakeV {
            kind: self.kind,
            msg: self.message@,
            related: self.related_elements@.map_values(|s: String| s@),
        }
    }
}

/// The mistake of a class missing from the diagram.
pub open spec fn missing_class_v(name: Seq<char>) -> MistakeV {
    MistakeV {
        kind: MistakeKind::MissingClass,
        msg: "Class '"@ + name + "' is missing from your diagram."@,
        related: seq![name],
    }
}

/// The mistake of a class drawn but absent from the code.
pub open spec fn extra_class_v(name: Seq<char>) -> MistakeV {
    MistakeV {
        kind: MistakeKind::ExtraClass,
        msg: "Class '"@ + name + "' appears in your diagram but not in the code."@,
        related: seq![name],
    }
}

/// The mistake of a relationship missing from the diagram.
pub open spec fn missing_relationship_v(from: Seq<char>, to: Seq<char>) -> MistakeV {
    MistakeV {
        kind: MistakeKind::MissingRelationship,
        msg: "Relationship from '"@ + from + "' to '"@ + to + "' is missing."@,
        related: seq![from, to],
    }
}

/// The mistake of a relationship drawn but absent from the code.
pub open spec fn extra_relationship_v(from: Seq<char>, to: Seq<char>) -> MistakeV {
    MistakeV {
        kind: MistakeKind::ExtraRelationship,
        msg: "Relationship from '"@ + from + "' to '"@ + to + "' should not exist."@,
        related: seq![from, to],
    }
}

/// The mistake of a relationship drawn with the wrong kind.
pub open spec fn wrong_relationship_type_v(from: Seq<char>, to: Seq<char>) -> MistakeV {
    MistakeV {
        kind: MistakeKind::WrongRelationshipType,
        msg: "Relationship between '"@ + from + "' and '"@ + to + "' has the wrong type."@,
        related: seq![from, to],
    }
}

/// The mistake of a method missing from a drawn class.
pub open spec fn missing_method_v(class_name: Seq<char>, method_name: Seq<char>) -> MistakeV {
    MistakeV {
        kind: MistakeKind::MissingMethod,
        msg: "Method '"@ + method_name + "' is missing from class '"@ + class_name + "'."@,
        related: seq![class_name, method_name],
    }
}

impl Mistake {
    /// A class of the code is missing from the diagram.
    pub fn missing_class(name: &str) -> (r: Mistake)
        ensures
            r@ == missing_class_v(name@),
    {
        let mut message = String::from_str("Class '");
        message.append(name);
        message.append("' is missing from your diagram.");
        let mut related_elements: Vec<String> = Vec::new();
        related_elements.push(String::from_str(name));
        let r = Mistake { kind: MistakeKind::MissingClass, message, related_elements };
        proof {
            assert(r@.related =~= seq![name@]);
        }
        r
    }

    /// A drawn class does not occur in the code.
    pub fn extra_class(name: &str) -> (r: Mistake)
        ensures
            r@ == extra_class_v(name@),
    {
        let mut message = String::from_str("Class '");
        message.append(name);
        message.append("' appears in your diagram but not in the code.");
        let mut related_elements: Vec<String> = Vec::new();
        related_elements.push(String::from_str(name));
        let r = Mistake { kind: MistakeKind::ExtraClass, message, related_elements };
        proof {
            assert(r@.related =~= seq![name@]);
        }
        r
    }

    /// A relationship of the code is missing from the diagram.
    pub fn missing_relationship(from: &str, to: &str) -> (r: Mistake)
        ensures
            r@ == missing_relationship_v(from@, to@),
    {
        let mut message = String::from_str("Relationship from '");
        message.append(from);
        message.append("' to '");
        message.append(to);
        message.append("' is missing.");
        let mut related_elements: Vec<String> = Vec::new();
        related_elements.push(String::from_str(from));
        related_elements.push(String::from_str(to));
        let r = Mistake { kind: MistakeKind::MissingRelationship, message, related_elements };
        proof {
            assert(r@.related =~= seq![from@, to@]);
            assert(r@.msg =~= missing_relationship_v(from@, to@).msg);
        }
        r
    }

    /// A drawn relationship does not occur in the code.
    pub fn extra_relationship(from: &str, to: &str) -> (r: Mistake)
        ensures
            r@ == extra_relationship_v(from@, to@),
    {
        let mut message = String::from_str("Relationship from '");
        message.append(from);
        message.append("' to '");
        message.append(to);
        message.append("' should not exist.");
        let mut related_elements: Vec<String> = Vec::new();
        related_elements.push(String::from_str(from));
        related_elements.push(String::from_str(to));
        let r = Mistake { kind: MistakeKind::ExtraRelationship, message, related_elements };
        proof {
            assert(r@.related =~= seq![from@, to@]);
            assert(r@.msg =~= extra_relationship_v(from@, to@).msg);
        }
        r
    }

    /// A drawn relationship carries the wrong kind.
    pub fn wrong_relationship_type(from: &str, to: &str) -> (r: Mistake)
        ensures
            r@ == wrong_relationship_type_v(from@, to@),
    {
        let mut message = String::from_str("Relationship between '");
        message.append(from);
        message.append("' and '");
        message.append(to);
        message.append("' has the wrong type.");
        let mut related_elements: Vec<String> = Vec::new();
        related_elements.push(String::from_str(from));
        related_elements.push(String::from_str(to));
        let r = Mistake { kind: MistakeKind::WrongRelationshipType, message, related_elements };
        proof {
            assert(r@.related =~= seq![from@, to@]);
            assert(r@.msg =~= wrong_relationship_type_v(from@, to@).msg);
        }
        r
    }

    /// A method of the code is missing from a drawn class.
    pub fn missing_method(class_name: &str, method_name: &str) -> (r: Mistake)
        ensures
            r@ == missing_method_v(class_name@, method_name@),
    {
        let mut message = String::from_str("Method '");
        message.append(method_name);
        message.append("' is missing from class '");
        message.append(class_name);
        message.append("'.");
        let mut related_elements: Vec<String> = Vec::new();
        related_elements.push(String::from_str(class_name));
        related_elements.push(String::from_str(method_name));
        let r = Mistake { kind: MistakeKind::MissingMethod, message, related_elements };
        proof {
            assert(r@.related =~= seq![class_name@, method_name@]);
            assert(r@.msg =~= missing_method_v(class_name@, method_name@).msg);
        }
        r
    }
}

} // verus!
