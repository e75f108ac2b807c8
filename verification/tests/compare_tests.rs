use javavis::api::{compare_from_code_and_student, diagram_from_code};
use javavis::compare::analyze_mistakes;
use javavis::http_api::{handle_compare, CompareRequest};
use javavis::mistake::MistakeKind;
use javavis::model::{Class, Diagram, Method, Relationship, RelationshipKind};

fn class(name: &str, methods: &[&str]) -> Class {
    Class {
        name: name.to_string(),
        methods: methods
            .iter()
            .map(|m| Method {
                name: m.to_string(),
            })
            .collect(),
    }
}

fn rel(from: &str, to: &str, kind: RelationshipKind) -> Relationship {
    Relationship {
        from: from.to_string(),
        to: to.to_string(),
        kind,
    }
}

#[test]
fn diagram_from_code_finds_classes_and_methods() {
    let source = "\
public class Animal {
    public void makeSound() {
    }
    private int getAge() {
    }
}

abstract class Dog {
    protected static String fetch() {
    }
}
";
    let diagram = diagram_from_code(source);
    assert_eq!(diagram.classes.len(), 2);
    assert_eq!(diagram.classes[0].name, "Animal");
    let animal_methods: Vec<_> = diagram.classes[0]
        .methods
        .iter()
        .map(|m| m.name.as_str())
        .collect();
    assert_eq!(animal_methods, vec!["makeSound", "getAge"]);
    assert_eq!(diagram.classes[1].name, "Dog");
    let dog_methods: Vec<_> = diagram.classes[1]
        .methods
        .iter()
        .map(|m| m.name.as_str())
        .collect();
    assert_eq!(dog_methods, vec!["fetch"]);
    assert!(diagram.relationships.is_empty());
}

#[test]
fn diagram_scan_skips_non_declarations() {
    let source = "\
class Calc {
    public int add(int a, int b) {
    }
    if (x) {
    }
    myclass Nope {
    }
}
";
    let diagram = diagram_from_code(source);
    assert_eq!(diagram.classes.len(), 1);
    assert_eq!(diagram.classes[0].name, "Calc");
    let methods: Vec<_> = diagram.classes[0]
        .methods
        .iter()
        .map(|m| m.name.as_str())
        .collect();
    assert_eq!(methods, vec!["add"]);
}

#[test]
fn missing_and_extra_classes_reported() {
    let correct = Diagram {
        classes: vec![class("A", &[]), class("B", &[])],
        relationships: vec![],
    };
    let student = Diagram {
        classes: vec![class("B", &[]), class("C", &[])],
        relationships: vec![],
    };
    let mistakes = analyze_mistakes(&correct, &student);
    let kinds: Vec<_> = mistakes.iter().map(|m| m.kind).collect();
    assert_eq!(
        kinds,
        vec![MistakeKind::MissingClass, MistakeKind::ExtraClass]
    );
    assert_eq!(mistakes[0].message, "Class 'A' is missing from your diagram.");
    assert_eq!(mistakes[0].related_elements, vec!["A".to_string()]);
    assert_eq!(
        mistakes[1].message,
        "Class 'C' is not present in the code but appears in your diagram."
    );
}

#[test]
fn relationship_mistakes_reported() {
    let correct = Diagram {
        classes: vec![class("A", &[]), class("B", &[]), class("C", &[])],
        relationships: vec![
            rel("A", "B", RelationshipKind::Inheritance),
            rel("A", "C", RelationshipKind::Association),
        ],
    };
    let student = Diagram {
        classes: vec![class("A", &[]), class("B", &[]), class("C", &[])],
        relationships: vec![
            rel("A", "B", RelationshipKind::Composition),
            rel("B", "C", RelationshipKind::Association),
        ],
    };
    let mistakes = analyze_mistakes(&correct, &student);
    let kinds: Vec<_> = mistakes.iter().map(|m| m.kind).collect();
    assert!(kinds.contains(&MistakeKind::MissingRelationship));
    assert!(kinds.contains(&MistakeKind::ExtraRelationship));
    assert!(kinds.contains(&MistakeKind::WrongRelationshipType));
    let wrong = mistakes
        .iter()
        .find(|m| m.kind == MistakeKind::WrongRelationshipType)
        .unwrap();
    assert_eq!(
        wrong.message,
        "Relationship between 'A' and 'B' should be Inheritance, not Composition."
    );
}

#[test]
fn missing_methods_reported() {
    let correct = Diagram {
        classes: vec![class("A", &["go", "stop"])],
        relationships: vec![],
    };
    let student = Diagram {
        classes: vec![class("A", &["go"])],
        relationships: vec![],
    };
    let mistakes = analyze_mistakes(&correct, &student);
    assert_eq!(mistakes.len(), 1);
    assert_eq!(mistakes[0].kind, MistakeKind::MissingMethod);
    assert_eq!(
        mistakes[0].message,
        "Method 'stop' is missing from class 'A'."
    );
    assert_eq!(
        mistakes[0].related_elements,
        vec!["A".to_string(), "stop".to_string()]
    );
}

#[test]
fn equal_diagrams_have_no_mistakes() {
    let correct = Diagram {
        classes: vec![class("A", &["go"])],
        relationships: vec![rel("A", "B", RelationshipKind::Inheritance)],
    };
    let student = Diagram {
        classes: vec![class("A", &["go"])],
        relationships: vec![rel("A", "B", RelationshipKind::Inheritance)],
    };
    let mistakes = analyze_mistakes(&correct, &student);
    assert!(mistakes.is_empty());
}

#[test]
fn compare_from_code_matches_scanned_classes() {
    let source = "\
class Animal {
    public void makeSound() {
    }
}
";
    let student = Diagram {
        classes: vec![class("Animal", &[])],
        relationships: vec![],
    };
    let mistakes = compare_from_code_and_student(source, &student);
    assert_eq!(mistakes.len(), 1);
    assert_eq!(mistakes[0].kind, MistakeKind::MissingMethod);
}

#[test]
fn handle_compare_reports_missing_class() {
    let req = CompareRequest {
        source_code: "class Animal {\n}\n".to_string(),
        student_diagram: Diagram {
            classes: vec![],
            relationships: vec![],
        },
    };
    let resp = handle_compare(req);
    assert_eq!(resp.mistakes.len(), 1);
    assert_eq!(resp.mistakes[0].kind, MistakeKind::MissingClass);
    assert_eq!(
        resp.mistakes[0].message,
        "Class 'Animal' is missing from your diagram."
    );
}
