use javavis::analyzer::{AnalysisResult, JavaClass, JavaField, JavaMethod};
use javavis::dict::Dict;
use javavis::graph::{GraphConfig, GraphGenerator};
use javavis::no_flow_gen;
use javavis::visualizer::{analyze_java_code, visualize_java_code, JavaVisualizer};

fn analyze(code: &str) -> AnalysisResult {
    analyze_java_code(code).unwrap()
}

fn generate_dot(analysis: &AnalysisResult) -> String {
    let generator = GraphGenerator::new();
    generator.generate_dot(analysis)
}

#[test]
fn dot_structure_validation() {
    let code = r#"
public class TestClass {
    private String name;

    public TestClass(String name) {
        this.name = name;
    }

    public String getName() {
        return this.name;
    }
}
"#;
    let result = analyze(code);
    let dot = generate_dot(&result);

    assert!(dot.starts_with("digraph JavaClasses {"));
    assert!(dot.ends_with("}\n"));

    assert!(dot.contains("subgraph cluster_TestClass"));
    assert!(dot.contains("label=\"TestClass\""));

    assert!(dot.contains("TestClass_class"));
    assert!(dot.contains("shape=ellipse"));
    assert!(dot.contains("fillcolor=lightblue"));

    assert!(dot.contains("TestClass_name"));
    assert!(dot.contains("shape=note"));
    assert!(dot.contains("fillcolor=lightyellow"));

    assert!(dot.contains("TestClass_getName"));
    assert!(dot.contains("shape=component"));
    assert!(dot.contains("fillcolor=lightgreen"));

    assert!(dot.contains("TestClass_class\" -> \"TestClass_name\""));
    assert!(dot.contains("TestClass_class\" -> \"TestClass_getName\""));
}

#[test]
fn no_constructor_nodes() {
    let code = r#"
public class NoConstructors {
    public void method() {}
}
"#;
    let result = analyze(code);
    let dot = generate_dot(&result);

    assert!(!dot.contains("_constructor"));
    assert!(!dot.contains("shape=house"));
    assert!(!dot.contains("fillcolor=lightcyan"));
}

#[test]
fn method_call_arrows() {
    let code = r#"
public class Caller {
    public void call() {
        Helper helper = new Helper();
        helper.method();
    }
}

class Helper {
    public void method() {}
}
"#;
    let result = analyze(code);
    let dot = generate_dot(&result);

    assert!(dot.contains("Caller_call\" -> \"Helper_method\""));
    assert!(dot.contains("arrowhead=normal"));
    assert!(dot.contains("color=blue"));
    assert!(dot.contains("style=solid"));
}

#[test]
fn inheritance_arrows() {
    let code = r#"
public class Parent {}

public class Child extends Parent {}
"#;
    let result = analyze(code);
    let dot = generate_dot(&result);

    assert!(dot.contains("Child_class\" -> \"Parent_class\""));
    assert!(dot.contains("arrowhead=empty"));
    assert!(dot.contains("label=extends"));
}

#[test]
fn test_simple_dot_generation() {
    let class = JavaClass {
        name: "TestClass".to_string(),
        visibility: "public".to_string(),
        is_abstract: false,
        is_interface: false,
        extends: None,
        implements: Vec::new(),
        fields: vec![],
        methods: vec![],
        constructors: Vec::new(),
    };

    let analysis = AnalysisResult {
        classes: vec![class],
        relationships: Vec::new(),
        object_registry: Dict::new(),
        type_inference: Dict::new(),
    };

    let generator = GraphGenerator::new();
    let dot = generator.generate_dot(&analysis);

    assert!(dot.contains("digraph JavaClasses"));
    assert!(dot.contains("subgraph cluster_TestClass"));
    assert!(dot.contains("TestClass_class"));
}

#[test]
fn test_class_with_fields_and_methods() {
    let class = JavaClass {
        name: "TestClass".to_string(),
        visibility: "public".to_string(),
        is_abstract: false,
        is_interface: false,
        extends: None,
        implements: Vec::new(),
        fields: vec![JavaField {
            name: "name".to_string(),
            field_type: "String".to_string(),
            visibility: "private".to_string(),
            is_static: false,
            is_final: false,
        }],
        methods: vec![JavaMethod {
            name: "getName".to_string(),
            return_type: "String".to_string(),
            visibility: "public".to_string(),
            is_static: false,
            is_abstract: false,
            parameters: vec![],
            calls: vec![],
        }],
        constructors: Vec::new(),
    };

    let analysis = AnalysisResult {
        classes: vec![class],
        relationships: Vec::new(),
        object_registry: Dict::new(),
        type_inference: Dict::new(),
    };

    let generator = GraphGenerator::new();
    let dot = generator.generate_dot(&analysis);

    assert!(dot.contains("TestClass_name"));
    assert!(dot.contains("TestClass_getName"));
    assert!(dot.contains("shape=note"));
    assert!(dot.contains("shape=component"));
}

#[test]
fn test_visualize_java_code_output_structure() {
    let code = r#"
public class TestClass {
    private int value;
    public void method() {}
}
"#;
    let result = visualize_java_code(code).unwrap();

    let lines: Vec<&str> = result.lines().collect();
    assert_eq!(lines[0], "digraph JavaClasses {");
    assert_eq!(lines.last().unwrap().trim(), "}");

    assert!(
        result
            .lines()
            .any(|line| line.contains("TestClass_class") && line.contains("shape=ellipse"))
    );
    assert!(
        result
            .lines()
            .any(|line| line.contains("TestClass_value") && line.contains("shape=note"))
    );
    assert!(
        result
            .lines()
            .any(|line| line.contains("TestClass_method") && line.contains("shape=component"))
    );

    assert!(
        result
            .lines()
            .any(|line| line.contains("subgraph cluster_TestClass"))
    );
    assert!(
        result
            .lines()
            .any(|line| line.contains("label=\"TestClass\""))
    );
}

#[test]
fn test_java_visualizer_validate_java_code() {
    let mut visualizer = JavaVisualizer::new().unwrap();

    assert!(visualizer.validate_java_code("class Valid {}").unwrap());

    let _result = visualizer.validate_java_code("class MissingBrace {");
}

#[test]
fn test_java_visualizer_generate_dot_from_analysis() {
    let mut visualizer = JavaVisualizer::new().unwrap();
    let analysis = visualizer.get_analysis_only("class Test {}").unwrap();

    let dot = visualizer.generate_dot_from_analysis(&analysis);

    assert!(dot.starts_with("digraph JavaClasses {"));
    assert!(dot.ends_with("}\n"));

    assert!(dot.contains("Test_class"));
    assert!(dot.contains("shape=ellipse"));
}

#[test]
fn test_java_visualizer_update_config() {
    let mut visualizer = JavaVisualizer::new().unwrap();

    let code = "class Test { private int value; }";
    let _result1 = visualizer.generate_dot(code).unwrap();

    let mut config = GraphConfig::default();
    config.show_fields = false;
    visualizer.update_config(config);

    let result2 = visualizer.generate_dot(code).unwrap();
    assert!(result2.starts_with("digraph JavaClasses {"));
    assert!(result2.ends_with("}\n"));
    assert!(!result2.contains("shape=note"));
}

#[test]
fn test_no_flow_gen_content_verification() {
    let code = r#"
public class ContentTest {
    private int value;
    public String name;
    public void method() {}
}
"#;
    let result = no_flow_gen(code);

    assert!(result.starts_with("digraph JavaClasses {"));
    assert!(result.ends_with("}\n"));

    assert!(result.lines().any(|line| line.contains("ContentTest_class")
        && line.contains("shape=ellipse")
        && line.contains("fillcolor=lightblue")));

    assert!(result.lines().any(|line| line.contains("ContentTest_value")
        && line.contains("shape=note")
        && line.contains("fillcolor=lightyellow")));

    assert!(
        result
            .lines()
            .any(|line| line.contains("ContentTest_method")
                && line.contains("shape=component")
                && line.contains("fillcolor=lightgreen"))
    );
}

#[test]
fn test_no_flow_gen_empty_class() {
    let code = "class Empty {}";
    let result = no_flow_gen(code);

    assert!(result.starts_with("digraph JavaClasses {"));
    assert!(result.contains("Empty_class"));

    assert!(!result.contains("Empty_field"));
    assert!(!result.contains("Empty_method"));
}

#[test]
fn test_dot_output_invariants() {
    let test_cases = vec![
        "class A {}",
        "class B { int x; }",
        "class C { void m() {} }",
        "public class D {}",
        "interface I { void method(); }",
        "abstract class Abstract { abstract void test(); }",
    ];

    for code in test_cases {
        let result = no_flow_gen(code);

        assert!(result.starts_with("digraph JavaClasses {"));
        assert!(result.ends_with("}\n"));

        let open_count = result.matches('{').count();
        let close_count = result.matches('}').count();
        assert_eq!(
            open_count, close_count,
            "Unbalanced braces in code: {}",
            code
        );
    }
}

#[test]
fn hidden_private_members_stay_out() {
    let code = "class H { private int secret; public int open; }";
    let mut config = GraphConfig::default();
    config.show_private_members = false;
    let analysis = analyze(code);
    let generator = GraphGenerator::with_config(config);
    let dot = generator.generate_dot(&analysis);
    assert!(!dot.contains("H_secret"));
    assert!(dot.contains("H_open"));
}

#[test]
fn dotted_names_become_safe_identifiers() {
    let code = r#"
class Q {
    void go() {
        System.out.println(1);
    }
}
"#;
    let result = analyze(code);
    let dot = generate_dot(&result);
    assert!(dot.contains("\"System_out_println\""));
    assert!(!dot.contains("\"System.out.println\""));
}
