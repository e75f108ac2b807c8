use javavis::dict::Dict;
use javavis::exec_flow::{ExecutionAction, ExecutionFlow, ExecutionStep};
use javavis::exec_graph::ExecutionGraphGenerator;
use javavis::execution_flow_gen;
use javavis::visualizer::JavaVisualizer;

const CALCULATOR: &str = r#"
public class TestExecution {
    public static void main(String[] args) {
        Calculator calc = new Calculator();
        calc.add(5);
        calc.add(3);
        double result = calc.getResult();
        System.out.println(result);
    }
}

public class Calculator {
    private double value;

    public Calculator() {
        this.value = 0.0;
    }

    public void add(double amount) {
        this.value += amount;
    }

    public double getResult() {
        return this.value;
    }
}
"#;

fn flow_of(code: &str) -> ExecutionFlow {
    let mut visualizer = JavaVisualizer::new().unwrap();
    visualizer.get_execution_flow_only(code).unwrap()
}

#[test]
fn test_execution_graph_generation() {
    let steps = vec![ExecutionStep {
        step_number: 1,
        line_number: 3,
        source_line: "Calculator calc = new Calculator();".to_string(),
        action: ExecutionAction::ObjectCreation {
            variable_name: "calc".to_string(),
            class_name: "Calculator".to_string(),
            constructor_params: vec![],
        },
        call_stack: vec!["main".to_string()],
        active_objects: vec!["calc".to_string()],
        description: "Create Calculator object".to_string(),
    }];

    let flow = ExecutionFlow {
        steps,
        call_graph: Dict::new(),
        object_lifecycle: Dict::new(),
        max_call_stack_depth: 1,
    };

    let generator = ExecutionGraphGenerator::new();
    let graphs = generator.generate_execution_graphs(&flow);

    assert_eq!(graphs.len(), 1);
    assert!(graphs[0].dot_code.contains("ExecutionFlow_1"));
    assert!(graphs[0].dot_code.contains("Calculator"));
}

#[test]
fn test_execution_flow_gen_output_format() {
    let code = r#"
public class FlowTest {
    public static void main(String[] args) {
        System.out.println("Hello");
    }
}
"#;
    let result = execution_flow_gen(code);

    assert!(!result.is_empty());

    for graph in &result {
        assert!(graph.starts_with("digraph"));
        assert!(graph.ends_with("}\n"));

        assert!(
            graph
                .lines()
                .any(|line| line.contains("subgraph") || line.contains("->"))
        );
    }
}

#[test]
fn no_main_yields_empty_flow() {
    let flow = flow_of("class A { void m() { int x = 1; } }");
    assert!(flow.steps.is_empty());
    assert_eq!(flow.max_call_stack_depth, 0);
}

#[test]
fn recursion_stops_at_depth_cap() {
    let code = r#"
public class Rec {
    public static void main(String[] args) {
        Rec.go();
    }
    public static void go() {
        Rec.go();
    }
}
"#;
    let flow = flow_of(code);
    assert!(flow.max_call_stack_depth <= 10);
    assert_eq!(flow.max_call_stack_depth, 10);
    for step in &flow.steps {
        assert!(step.call_stack.len() <= 10);
    }
}

#[test]
fn compound_mutation_arithmetic() {
    let flow = flow_of(CALCULATOR);
    let mutations: Vec<_> = flow
        .steps
        .iter()
        .filter_map(|s| match &s.action {
            ExecutionAction::FieldMutation {
                field_name,
                old_value,
                new_value,
            } => Some((field_name.clone(), old_value.clone(), new_value.clone())),
            _ => None,
        })
        .collect();
    assert!(mutations.contains(&(
        "value".to_string(),
        Some("0.0".to_string()),
        "5.0".to_string()
    )));
    assert!(mutations.contains(&(
        "value".to_string(),
        Some("5.0".to_string()),
        "8.0".to_string()
    )));
}

#[test]
fn calculator_end_to_end_trace() {
    let flow = flow_of(CALCULATOR);

    for (i, step) in flow.steps.iter().enumerate() {
        assert_eq!(step.step_number, i + 1);
    }

    let creation = flow
        .steps
        .iter()
        .find(|s| matches!(&s.action, ExecutionAction::ObjectCreation { .. }))
        .unwrap();
    assert_eq!(
        creation.call_stack.last(),
        Some(&"Calculator.<init>".to_string())
    );
    assert_eq!(creation.source_line, "Calculator calc = new Calculator();");

    let ret = flow
        .steps
        .iter()
        .find(|s| {
            matches!(&s.action, ExecutionAction::MethodReturn { method_name, .. }
                if method_name == "Calculator.getResult")
        })
        .unwrap();
    match &ret.action {
        ExecutionAction::MethodReturn { return_value, .. } => {
            assert_eq!(return_value, &Some("this.value".to_string()));
        }
        _ => unreachable!(),
    }

    let access = flow
        .steps
        .iter()
        .find(|s| matches!(&s.action, ExecutionAction::FieldAccess { .. }))
        .unwrap();
    match &access.action {
        ExecutionAction::FieldAccess { field_name, value } => {
            assert_eq!(field_name, "value");
            assert_eq!(value, &Some("8.0".to_string()));
        }
        _ => unreachable!(),
    }

    let last = flow.steps.last().unwrap();
    match &last.action {
        ExecutionAction::MethodCall {
            method_name,
            target_class,
            ..
        } => {
            assert_eq!(method_name, "println");
            assert_eq!(target_class, "System.out");
        }
        _ => panic!("final step should be the println call"),
    }
}

#[test]
fn if_statement_takes_then_branch_once() {
    let code = r#"
public class Cond {
    public static void main(String[] args) {
        int x = 1;
        if (x > 0) {
            int y = 2;
        } else {
            int z = 3;
        }
    }
}
"#;
    let flow = flow_of(code);
    let branches: Vec<_> = flow
        .steps
        .iter()
        .filter_map(|s| match &s.action {
            ExecutionAction::ConditionalBranch {
                condition,
                branch_taken,
            } => Some((condition.clone(), *branch_taken)),
            _ => None,
        })
        .collect();
    assert_eq!(branches.len(), 1);
    assert_eq!(branches[0], ("(x > 0)".to_string(), true));

    let assigned: Vec<_> = flow
        .steps
        .iter()
        .filter_map(|s| match &s.action {
            ExecutionAction::VariableAssignment { variable_name, .. } => {
                Some(variable_name.clone())
            }
            _ => None,
        })
        .collect();
    assert!(assigned.contains(&"y".to_string()));
    assert!(!assigned.contains(&"z".to_string()));
}

#[test]
fn loop_body_simulated_once() {
    let code = r#"
public class Looper {
    public static void main(String[] args) {
        while (true) {
            int y = 2;
        }
    }
}
"#;
    let flow = flow_of(code);
    let loops: Vec<_> = flow
        .steps
        .iter()
        .filter_map(|s| match &s.action {
            ExecutionAction::LoopIteration {
                loop_type,
                iteration,
                ..
            } => Some((loop_type.clone(), *iteration)),
            _ => None,
        })
        .collect();
    assert_eq!(loops, vec![("while_statement".to_string(), 1)]);

    let assigned = flow
        .steps
        .iter()
        .filter(|s| {
            matches!(&s.action, ExecutionAction::VariableAssignment { variable_name, .. }
                if variable_name == "y")
        })
        .count();
    assert_eq!(assigned, 1);
}

#[test]
fn call_graph_and_lifecycle_recorded() {
    let flow = flow_of(CALCULATOR);
    let main_calls = flow.call_graph.get("main").unwrap();
    assert!(main_calls.contains(&"Calculator.add".to_string()));
    assert!(main_calls.contains(&"System.out.println".to_string()));

    let life = flow.object_lifecycle.get("calc").unwrap();
    assert!(life.len() >= 3);
    for pair in life.windows(2) {
        assert!(pair[0] <= pair[1]);
    }
}

#[test]
fn division_renders_exactly() {
    let code = r#"
public class Divider {
    public static void main(String[] args) {
        Divider d = new Divider();
        d.halve(5);
    }
    private double value;
    public Divider() {
        this.value = 5.0;
    }
    public void halve(double by) {
        this.value /= 2;
    }
}
"#;
    let flow = flow_of(code);
    let mutations: Vec<_> = flow
        .steps
        .iter()
        .filter_map(|s| match &s.action {
            ExecutionAction::FieldMutation { new_value, .. } => Some(new_value.clone()),
            _ => None,
        })
        .collect();
    assert!(mutations.contains(&"2.5".to_string()));
}

#[test]
fn subtraction_crosses_zero_exactly() {
    let code = r#"
public class Debtor {
    public static void main(String[] args) {
        Debtor d = new Debtor();
        d.charge(3);
    }
    private double value;
    public Debtor() {
        this.value = 1.0;
    }
    public void charge(double by) {
        this.value -= by;
    }
}
"#;
    let flow = flow_of(code);
    let mutations: Vec<_> = flow
        .steps
        .iter()
        .filter_map(|s| match &s.action {
            ExecutionAction::FieldMutation { new_value, .. } => Some(new_value.clone()),
            _ => None,
        })
        .collect();
    assert!(mutations.contains(&"-2.0".to_string()));
}

#[test]
fn unparsable_operand_falls_back_to_raw_text() {
    let code = r#"
public class Texty {
    public static void main(String[] args) {
        Texty t = new Texty();
        t.tag();
    }
    private String label;
    public Texty() {
        this.label = "x";
    }
    public void tag() {
        this.label += "y";
    }
}
"#;
    let flow = flow_of(code);
    let mutations: Vec<_> = flow
        .steps
        .iter()
        .filter_map(|s| match &s.action {
            ExecutionAction::FieldMutation { new_value, .. } => Some(new_value.clone()),
            _ => None,
        })
        .collect();
    assert!(mutations.contains(&"this.label += \"y\"".to_string()));
}

#[test]
fn multiplication_strips_trailing_zeros() {
    let code = r#"
public class Scaler {
    public static void main(String[] args) {
        Scaler s = new Scaler();
        s.scale(4);
    }
    private double value;
    public Scaler() {
        this.value = 2.5;
    }
    public void scale(double by) {
        this.value *= by;
    }
}
"#;
    let flow = flow_of(code);
    let mutations: Vec<_> = flow
        .steps
        .iter()
        .filter_map(|s| match &s.action {
            ExecutionAction::FieldMutation { new_value, .. } => Some(new_value.clone()),
            _ => None,
        })
        .collect();
    assert!(mutations.contains(&"10.0".to_string()));
}
