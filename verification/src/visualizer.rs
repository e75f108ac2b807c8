use vstd::prelude::*;

verus! {

use crate::analyzer::{AnalysisResult, JavaAnalyzer, spec_analysis};
use crate::exec_flow::{CtxV, ExecutionAnalyzer, ExecutionFlow, ExecutionStep, max_depth, sim_run};
use crate::exec_graph::{
    ExecutionGraphConfig, ExecutionGraphGenerator, ExecutionGraphStep, GStepV, default_exec_config,
    spec_graphs,
};
use crate::graph::{GraphConfig, GraphGenerator, default_config, spec_dot};
use crate::strings::spec_lines;
use crate::tree::{java_parse, parse_java};
use vstd::string::StringExecFns;

/// Why a visualisation run yielded nothing: the parser declined the input.
#[derive(Debug)]
pub enum VisError {
    ParseFailure,
}

impl VisError {
    /// A short text for callers that print the error.
    pub fn message(&self) -> (r: String)
        ensures
            r@ == "failed to parse the source as Java"@,
    {
        String::from_str("failed to parse the source as Java")
    }
}

/// A class diagram with the analysis it was drawn from.
pub struct VisualizationResult {
    pub dot_code: String,
    pub analysis: AnalysisResult,
    pub step_count: usize,
}

/// A simulated run with the analysis behind it and its rendered steps.
pub struct ExecutionVisualizationResult {
    pub execution_flow: ExecutionFlow,
    pub static_analysis: AnalysisResult,
    pub execution_graphs: Vec<ExecutionGraphStep>,
}

/// The run context one source text induces.
pub open spec fn ctx_for(code: Seq<char>) -> CtxV
    recommends
        java_parse(code) is Some,
{
    CtxV {
        root: java_parse(code).unwrap(),
        lines: spec_lines(code),
        anal: spec_analysis(java_parse(code).unwrap()),
    }
}

/// The front door: parses, analyzes and renders in one place.
pub struct JavaVisualizer {
    analyzer: JavaAnalyzer,
    graph_generator: GraphGenerator,
}

impl JavaVisualizer {
    /// The configuration the class diagrams are drawn with.
    pub closed spec fn spec_config(&self) -> GraphConfig {
        self.graph_generator.spec_config()
    }

    /// A visualizer drawing with the default configuration.
    pub fn new() -> (r: Result<JavaVisualizer, VisError>)
        ensures
            r matches Ok(v) && v.spec_config() == default_config(),
    {
        Ok(JavaVisualizer { analyzer: JavaAnalyzer::new(), graph_generator: GraphGenerator::new() })
    }

    /// A visualizer drawing with the given configuration.
    pub fn with_config(config: GraphConfig) -> (r: Result<JavaVisualizer, VisError>)
        ensures
            r matches Ok(v) && v.spec_config() == config,
    {
        Ok(
            JavaVisualizer {
                analyzer: JavaAnalyzer::new(),
                graph_generator: GraphGenerator::with_config(config),
            },
        )
    }

    /// The class diagram of the source: the diagram of its analysis
    /// exactly when the source parses.
    pub fn generate_dot(&mut self, java_code: &str) -> (r: Result<String, VisError>)
        ensures
            match r {
                Ok(s) => java_parse(java_code@) is Some && s@ == spec_dot(
                    old(self).spec_config(),
                    spec_analysis(java_parse(java_code@).unwrap()),
                ),
                Err(_) => java_parse(java_code@) is None,
            },
    {
        match self.analyze_and_generate(java_code) {
            Ok(res) => Ok(res.dot_code),
            Err(e) => Err(e),
        }
    }

    /// The diagram together with the analysis it was drawn from; fails
    /// exactly when the source does not parse.
    pub fn analyze_and_generate(&mut self, java_code: &str) -> (r: Result<
        VisualizationResult,
        VisError,
    >)
        ensures
            match r {
                Ok(res) => java_parse(java_code@) is Some && res.analysis@ == spec_analysis(
                    java_parse(java_code@).unwrap(),
                ) && res.dot_code@ == spec_dot(
                    old(self).spec_config(),
                    spec_analysis(java_parse(java_code@).unwrap()),
                ) && res.step_count == 1,
                Err(_) => java_parse(java_code@) is None,
            },
    {
        match parse_java(java_code) {
            None => Err(VisError::ParseFailure),
            Some(tree) => {
                let analysis = self.analyzer.analyze(&tree);
                let dot_code = self.graph_generator.generate_dot(&analysis);
                Ok(VisualizationResult { dot_code, analysis, step_count: 1 })
            },
        }
    }

    /// The analysis alone; fails exactly when the source does not parse.
    pub fn get_analysis_only(&mut self, java_code: &str) -> (r: Result<AnalysisResult, VisError>)
        ensures
            match r {
                Ok(a) => java_parse(java_code@) is Some && a@ == spec_analysis(
                    java_parse(java_code@).unwrap(),
                ),
                Err(_) => java_parse(java_code@) is None,
            },
    {
        match parse_java(java_code) {
            None => Err(VisError::ParseFailure),
            Some(tree) => Ok(self.analyzer.analyze(&tree)),
        }
    }

    /// The diagram of an analysis already in hand.
    pub fn generate_dot_from_analysis(&self, analysis: &AnalysisResult) -> (r: String)
        ensures
            r@ == spec_dot(self.spec_config(), analysis@),
    {
        self.graph_generator.generate_dot(analysis)
    }

    /// Draws with another configuration from here on.
    pub fn update_config(&mut self, config: GraphConfig)
        ensures
            final(self).spec_config() == config,
    {
        self.graph_generator = GraphGenerator::with_config(config);
    }

    /// Whether the source parses as Java.
    pub fn validate_java_code(&mut self, java_code: &str) -> (r: Result<bool, VisError>)
        ensures
            match r {
                Ok(b) => b && java_parse(java_code@) is Some,
                Err(_) => java_parse(java_code@) is None,
            },
    {
        match parse_java(java_code) {
            None => Err(VisError::ParseFailure),
            Some(_) => Ok(true),
        }
    }

    /// One full run: the analysis, the simulated flow, and the rendered
    /// steps; fails exactly when the source does not parse.
    pub fn analyze_execution_flow(&mut self, java_code: &str) -> (r: Result<
        ExecutionVisualizationResult,
        VisError,
    >)
        ensures
            match r {
                Ok(res) => java_parse(java_code@) is Some && res.static_analysis@ == spec_analysis(
                    java_parse(java_code@).unwrap(),
                ) && res.execution_flow.steps@.map_values(|s: ExecutionStep| s@) == sim_run(
                    ctx_for(java_code@),
                ).steps && res.execution_graphs@.map_values(|g: ExecutionGraphStep| g@)
                    == spec_graphs(default_exec_config(), sim_run(ctx_for(java_code@)).steps),
                Err(_) => java_parse(java_code@) is None,
            },
    {
        self.run_execution_flow(java_code, ExecutionGraphConfig::default())
    }

    /// As `analyze_execution_flow`, rendered with the given configuration.
    pub fn analyze_execution_flow_with_config(
        &mut self,
        java_code: &str,
        execution_config: ExecutionGraphConfig,
    ) -> (r: Result<ExecutionVisualizationResult, VisError>)
        ensures
            match r {
                Ok(res) => java_parse(java_code@) is Some && res.static_analysis@ == spec_analysis(
                    java_parse(java_code@).unwrap(),
                ) && res.execution_flow.steps@.map_values(|s: ExecutionStep| s@) == sim_run(
                    ctx_for(java_code@),
                ).steps && res.execution_graphs@.map_values(|g: ExecutionGraphStep| g@)
                    == spec_graphs(execution_config, sim_run(ctx_for(java_code@)).steps),
                Err(_) => java_parse(java_code@) is None,
            },
    {
        self.run_execution_flow(java_code, execution_config)
    }

    fn run_execution_flow(&mut self, java_code: &str, execution_config: ExecutionGraphConfig) -> (r:
        Result<ExecutionVisualizationResult, VisError>)
        ensures
            match r {
                Ok(res) => java_parse(java_code@) is Some && res.static_analysis@ == spec_analysis(
                    java_parse(java_code@).unwrap(),
                ) && res.execution_flow.steps@.map_values(|s: ExecutionStep| s@) == sim_run(
                    ctx_for(java_code@),
                ).steps && res.execution_graphs@.map_values(|g: ExecutionGraphStep| g@)
                    == spec_graphs(execution_config, sim_run(ctx_for(java_code@)).steps),
                Err(_) => java_parse(java_code@) is None,
            },
    {
        match parse_java(java_code) {
            None => Err(VisError::ParseFailure),
            Some(tree) => {
                let for_flow = self.analyzer.analyze(&tree);
                let static_analysis = self.analyzer.analyze(&tree);
                let mut exec_analyzer = ExecutionAnalyzer::new(for_flow);
                let execution_flow = exec_analyzer.analyze_execution_flow(&tree, java_code);
                let generator = ExecutionGraphGenerator::with_config(execution_config);
                let execution_graphs = generator.generate_execution_graphs(&execution_flow);
                Ok(
                    ExecutionVisualizationResult {
                        execution_flow,
                        static_analysis,
                        execution_graphs,
                    },
                )
            },
        }
    }

    /// The simulated flow alone; fails exactly when the source does not
    /// parse.
    pub fn get_execution_flow_only(&mut self, java_code: &str) -> (r: Result<
        ExecutionFlow,
        VisError,
    >)
        ensures
            match r {
                Ok(flow) => java_parse(java_code@) is Some && flow.steps@.map_values(
                    |s: ExecutionStep| s@,
                ) == sim_run(ctx_for(java_code@)).steps && flow.max_call_stack_depth <= max_depth(),
                Err(_) => java_parse(java_code@) is None,
            },
    {
        match parse_java(java_code) {
            None => Err(VisError::ParseFailure),
            Some(tree) => {
                let analysis = self.analyzer.analyze(&tree);
                let mut exec_analyzer = ExecutionAnalyzer::new(analysis);
                Ok(exec_analyzer.analyze_execution_flow(&tree, java_code))
            },
        }
    }
}

/// The class diagram of the source under the default configuration.
pub fn visualize_java_code(java_code: &str) -> (r: Result<String, VisError>)
    ensures
        match r {
            Ok(s) => java_parse(java_code@) is Some && s@ == spec_dot(
                default_config(),
                spec_analysis(java_parse(java_code@).unwrap()),
            ),
            Err(_) => java_parse(java_code@) is None,
        },
{
    let mut visualizer = match JavaVisualizer::new() {
        Ok(v) => v,
        Err(e) => {
            return Err(e);
        },
    };
    visualizer.generate_dot(java_code)
}

/// The class diagram of the source under the given configuration.
pub fn visualize_java_code_with_config(java_code: &str, config: GraphConfig) -> (r: Result<
    String,
    VisError,
>)
    ensures
        match r {
            Ok(s) => java_parse(java_code@) is Some && s@ == spec_dot(
                config,
                spec_analysis(java_parse(java_code@).unwrap()),
            ),
            Err(_) => java_parse(java_code@) is None,
        },
{
    let mut visualizer = match JavaVisualizer::with_config(config) {
        Ok(v) => v,
        Err(e) => {
            return Err(e);
        },
    };
    visualizer.generate_dot(java_code)
}

/// The analysis of the source; fails exactly when it does not parse.
pub fn analyze_java_code(java_code: &str) -> (r: Result<AnalysisResult, VisError>)
    ensures
        match r {
            Ok(a) => java_parse(java_code@) is Some && a@ == spec_analysis(
                java_parse(java_code@).unwrap(),
            ),
            Err(_) => java_parse(java_code@) is None,
        },
{
    let mut visualizer = match JavaVisualizer::new() {
        Ok(v) => v,
        Err(e) => {
            return Err(e);
        },
    };
    visualizer.get_analysis_only(java_code)
}

} // verus!
