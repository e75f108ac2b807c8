use javavis::analyzer::{AnalysisResult, RelationshipType};
use javavis::tree::parse_java;
use javavis::visualizer::analyze_java_code;

fn analyze(code: &str) -> AnalysisResult {
    analyze_java_code(code).unwrap()
}

#[test]
fn simple_java_parsing() {
    let root = parse_java("public class Test {}").unwrap();
    assert_eq!(root.kind, "program");
}

#[test]
fn test_implements_extends() {
    let code = r#"
public interface Trainable {}

public abstract class Animal {}

public class Dog extends Animal implements Trainable {}
"#;
    let result = analyze(code);
    assert_eq!(result.classes[2].implements, vec!["Trainable"]);
    assert_eq!(result.classes[2].extends, Some("Animal".to_string()));
}

#[test]
fn simple_class_analysis() {
    let code = r#"
public class SimpleClass {
    private int value;

    public SimpleClass() {
        this.value = 0;
    }

    public int getValue() {
        return this.value;
    }
}
"#;
    let result = analyze(code);

    assert_eq!(result.classes.len(), 1);
    let class = &result.classes[0];
    assert_eq!(class.name, "SimpleClass");
    assert_eq!(class.visibility, "public");
    assert!(!class.is_abstract);
    assert!(!class.is_interface);

    assert_eq!(class.fields.len(), 1);
    let field = &class.fields[0];
    assert_eq!(field.name, "value");
    println!("DEBUG: field.field_type = '{}'", field.field_type);
    assert_eq!(field.field_type, "int");
    assert_eq!(field.visibility, "private");
    assert!(!field.is_static);

    assert_eq!(class.methods.len(), 1);
    let method = &class.methods[0];
    assert_eq!(method.name, "getValue");
    assert_eq!(method.return_type, "int");
    assert_eq!(method.visibility, "public");
    assert!(!method.is_static);

    assert_eq!(class.constructors.len(), 1);
    let constructor = &class.constructors[0];
    assert_eq!(constructor.visibility, "public");
}

#[test]
fn multiple_classes_analysis() {
    let code = r#"
public class ClassA {
    public void methodA() {}
}

class ClassB {
    private void methodB() {}
}
"#;
    let result = analyze(code);

    assert_eq!(result.classes.len(), 2);

    let class_a = result.classes.iter().find(|c| c.name == "ClassA").unwrap();
    let class_b = result.classes.iter().find(|c| c.name == "ClassB").unwrap();

    assert_eq!(class_a.visibility, "public");
    assert_eq!(class_a.methods.len(), 1);
    assert_eq!(class_a.methods[0].visibility, "public");

    assert_eq!(class_b.visibility, "package");
    assert_eq!(class_b.methods.len(), 1);
    assert_eq!(class_b.methods[0].visibility, "private");
}

#[test]
fn inheritance_relationships() {
    let code = r#"
public class Animal {}

public class Dog extends Animal {}

public class Cat extends Animal {}
"#;
    let result = analyze(code);

    assert_eq!(result.classes.len(), 3);

    let extends_relationships: Vec<_> = result
        .relationships
        .iter()
        .filter(|r| matches!(r.relationship_type, RelationshipType::Extends))
        .collect();

    assert_eq!(extends_relationships.len(), 2);

    let dog_extends_animal = extends_relationships
        .iter()
        .find(|r| r.from == "Dog" && r.to == "Animal");
    assert!(dog_extends_animal.is_some());

    let cat_extends_animal = extends_relationships
        .iter()
        .find(|r| r.from == "Cat" && r.to == "Animal");
    assert!(cat_extends_animal.is_some());
}

#[test]
fn interface_implementation() {
    let code = r#"
public interface Drawable {
    void draw();
}

public class Circle implements Drawable {
    public void draw() {}
}
"#;
    let result = analyze(code);

    assert_eq!(result.classes.len(), 2);

    let circle = result.classes.iter().find(|c| c.name == "Circle").unwrap();
    let drawable = result
        .classes
        .iter()
        .find(|c| c.name == "Drawable")
        .unwrap();

    assert!(drawable.is_interface);
    assert_eq!(circle.implements, vec!["Drawable"]);

    let implements_relationships: Vec<_> = result
        .relationships
        .iter()
        .filter(|r| matches!(r.relationship_type, RelationshipType::Implements))
        .collect();

    assert_eq!(implements_relationships.len(), 1);
    assert_eq!(implements_relationships[0].from, "Circle");
    assert_eq!(implements_relationships[0].to, "Drawable");
}

#[test]
fn method_call_analysis() {
    let code = r#"
public class TestCalls {
    public void main() {
        Calculator calc = new Calculator();
        calc.add(5);
        calc.multiply(3);
        double result = calc.getResult();
    }
}

class Calculator {
    private double value;

    public void add(double amount) {
        this.value += amount;
    }

    public void multiply(double factor) {
        this.value *= factor;
    }

    public double getResult() {
        return this.value;
    }
}
"#;
    let result = analyze(code);

    assert!(result.type_inference.contains_key("calc"));
    assert_eq!(
        result.type_inference.get("calc"),
        Some(&"Calculator".to_string())
    );

    let method_calls: Vec<_> = result
        .relationships
        .iter()
        .filter(|r| matches!(r.relationship_type, RelationshipType::MethodCall))
        .collect();

    assert_eq!(method_calls.len(), 3);

    let calls_from_main: Vec<_> = method_calls
        .iter()
        .filter(|r| r.from == "TestCalls.main")
        .collect();

    assert_eq!(calls_from_main.len(), 3);

    let call_targets: Vec<_> = calls_from_main.iter().map(|r| r.to.as_str()).collect();

    assert!(call_targets.contains(&"Calculator.add"));
    assert!(call_targets.contains(&"Calculator.multiply"));
    assert!(call_targets.contains(&"Calculator.getResult"));
}

#[test]
fn static_method_calls() {
    let code = r#"
public class StaticCalls {
    public void test() {
        Math.sqrt(16);
        String.valueOf(42);
    }
}
"#;
    let result = analyze(code);

    let method_calls: Vec<_> = result
        .relationships
        .iter()
        .filter(|r| matches!(r.relationship_type, RelationshipType::MethodCall))
        .collect();

    let static_calls: Vec<_> = method_calls
        .iter()
        .filter(|r| r.to.starts_with("Math.") || r.to.starts_with("String."))
        .collect();

    assert!(!static_calls.is_empty());
}

#[test]
fn empty_class() {
    let code = "public class EmptyClass {}";
    let result = analyze(code);

    assert_eq!(result.classes.len(), 1);
    let class = &result.classes[0];
    assert_eq!(class.name, "EmptyClass");
    assert_eq!(class.fields.len(), 0);
    assert_eq!(class.methods.len(), 0);
    assert_eq!(class.constructors.len(), 0);
}

#[test]
fn abstract_class() {
    let code = r#"
public abstract class AbstractClass {
    public abstract void abstractMethod();
    public void concreteMethod() {}
}
"#;
    let result = analyze(code);

    let class = &result.classes[0];
    assert!(class.is_abstract);

    let methods = &class.methods;
    let abstract_method = methods.iter().find(|m| m.name == "abstractMethod").unwrap();
    let concrete_method = methods.iter().find(|m| m.name == "concreteMethod").unwrap();

    assert!(abstract_method.is_abstract);
    assert!(!concrete_method.is_abstract);
}

#[test]
fn interface_only() {
    let code = r#"
public interface OnlyInterface {
    void method1();
    int method2(String param);
}
"#;
    let result = analyze(code);

    let interface = &result.classes[0];
    assert!(interface.is_interface);
    assert_eq!(interface.methods.len(), 2);

    for method in &interface.methods {
        assert!(method.is_abstract);
    }
}

#[test]
fn test_analyzer_equality_logic_branches() {
    let code_int = "class Test { int value = 42; }";
    let code_boolean = "class Test { boolean value = true; }";
    let code_double = "class Test { double value = 3.14; }";

    let result_int = analyze(code_int);
    let result_boolean = analyze(code_boolean);
    let result_double = analyze(code_double);

    assert_eq!(result_int.classes[0].fields[0].field_type, "int");
    assert_eq!(result_boolean.classes[0].fields[0].field_type, "boolean");
    assert_eq!(result_double.classes[0].fields[0].field_type, "double");
}

#[test]
fn test_visibility_logic_branches() {
    let code_with_all_visibilities = r#"
public class VisibilityTest {
    public int publicField;
    protected int protectedField;
    private int privateField;
    int packageField;

    public void publicMethod() {}
    protected void protectedMethod() {}
    private void privateMethod() {}
    void packageMethod() {}
}
"#;
    let result = analyze(code_with_all_visibilities);
    let class = &result.classes[0];

    let visibilities: Vec<_> = class.fields.iter().map(|f| f.visibility.as_str()).collect();
    assert!(visibilities.contains(&"public"));
    assert!(visibilities.contains(&"protected"));
    assert!(visibilities.contains(&"private"));
    assert!(visibilities.contains(&"package"));

    let method_visibilities: Vec<_> = class
        .methods
        .iter()
        .map(|m| m.visibility.as_str())
        .collect();
    assert!(method_visibilities.contains(&"public"));
    assert!(method_visibilities.contains(&"protected"));
    assert!(method_visibilities.contains(&"private"));
    assert!(method_visibilities.contains(&"package"));
}

#[test]
fn test_analysis_result_invariants() {
    let test_cases = vec![
        "class Simple {}",
        "class WithFields { int x; }",
        "class WithMethods { void a() {} }",
        "class WithConstructor { public WithConstructor() {} }",
    ];

    for code in test_cases {
        let result = analyze(code);

        assert!(!result.classes.is_empty(), "Should have at least one class");

        for class in &result.classes {
            assert!(!class.name.is_empty());

            assert!(
                ["public", "private", "protected", "package"]
                    .contains(&class.visibility.as_str())
            );

            for field in &class.fields {
                if !field.name.is_empty() {
                    assert!(
                        !field.field_type.is_empty(),
                        "Field type should not be empty for field: {}",
                        field.name
                    );
                    assert!(
                        ["public", "private", "protected", "package"]
                            .contains(&field.visibility.as_str())
                    );
                }
            }

            for method in &class.methods {
                if !method.name.is_empty() {
                    assert!(
                        !method.return_type.is_empty(),
                        "Method return type should not be empty for method: {}",
                        method.name
                    );
                    assert!(
                        ["public", "private", "protected", "package"]
                            .contains(&method.visibility.as_str())
                    );
                }
            }
        }
    }
}

#[test]
fn variable_registration_records_class_and_line() {
    let code = "class A {\n    void m() {\n        B b = new B();\n    }\n}\nclass B {}\n";
    let result = analyze(code);
    assert_eq!(result.type_inference.get("b"), Some(&"B".to_string()));
    let info = result.object_registry.get("b").unwrap();
    assert_eq!(info.class_name, "B");
    assert_eq!(info.declared_at_line, 3);
    assert!(!info.is_parameter);
}

#[test]
fn constructed_type_wins_over_declared() {
    let code = "class A {\n    void m() {\n        Object x = new Special();\n    }\n}\n";
    let result = analyze(code);
    assert_eq!(result.type_inference.get("x"), Some(&"Special".to_string()));
}

#[test]
fn one_extends_edge_per_clause() {
    let code = "class Base {}\nclass Derived extends Base {}\n";
    let result = analyze(code);
    let extends: Vec<_> = result
        .relationships
        .iter()
        .filter(|r| matches!(r.relationship_type, RelationshipType::Extends))
        .collect();
    assert_eq!(extends.len(), 1);
    assert_eq!(extends[0].from, "Derived");
    assert_eq!(extends[0].to, "Base");
}

#[test]
fn analysis_is_deterministic() {
    let code = r#"
public class A { private int x; public void go() {} }
class B extends A {}
"#;
    let r1 = analyze(code);
    let r2 = analyze(code);
    assert_eq!(r1.classes.len(), r2.classes.len());
    for (c1, c2) in r1.classes.iter().zip(r2.classes.iter()) {
        assert_eq!(c1.name, c2.name);
        assert_eq!(c1.visibility, c2.visibility);
        assert_eq!(c1.is_abstract, c2.is_abstract);
        assert_eq!(c1.is_interface, c2.is_interface);
        assert_eq!(c1.extends, c2.extends);
        assert_eq!(c1.implements, c2.implements);
        assert_eq!(c1.fields.len(), c2.fields.len());
        assert_eq!(c1.methods.len(), c2.methods.len());
    }
    assert_eq!(r1.relationships.len(), r2.relationships.len());
    for (a, b) in r1.relationships.iter().zip(r2.relationships.iter()) {
        assert_eq!(a.from, b.from);
        assert_eq!(a.to, b.to);
        assert_eq!(a.relationship_type, b.relationship_type);
    }
    assert_eq!(
        r1.type_inference.entries.len(),
        r2.type_inference.entries.len()
    );
    for (a, b) in r1
        .type_inference
        .entries
        .iter()
        .zip(r2.type_inference.entries.iter())
    {
        assert_eq!(a.key, b.key);
        assert_eq!(a.val, b.val);
    }
}
