//! Builds a structural model of Java source and replays one bounded
//! execution path through it, step by step. Parsing is the outside
//! parser's work; everything after the tree — the class model, the call
//! resolution, the simulated trace, the graph texts, and the diagram
//! grader — is verified against the specifications in each module.
#![verifier::loop_isolation(false)]
use vstd::prelude::*;

pub mod analyzer;
pub mod api;
pub mod compare;
pub mod dict;
pub mod exec_flow;
pub mod exec_graph;
pub mod graph;
pub mod http_api;
pub mod mistake;
pub mod model;
pub mod numeric;
pub mod strings;
pub mod tree;
pub mod visualizer;

verus! {

use crate::analyzer::{JavaAnalyzer, spec_analysis};
use crate::exec_flow::{ExecutionAnalyzer, sim_run};
use crate::exec_graph::{
    ExecutionGraphGenerator, ExecutionGraphStep, GStepV, default_exec_config, spec_graphs,
};
use crate::graph::{GraphGenerator, default_config, spec_dot};
use crate::tree::{java_parse, parse_java};
use crate::visualizer::ctx_for;

/// The graph texts of the rendered steps, in order.
pub open spec fn dots_of(gs: Seq<GStepV>) -> Seq<Seq<char>> {
    gs.map_values(|g: GStepV| g.dot)
}

/// One step graph per simulated step of the source's run, under the
/// default configuration; an input the parser declines yields no graphs.
pub fn execution_flow_gen(java_code: &str) -> (r: Vec<String>)
    ensures
        match java_parse(java_code@) {
            Some(_) => r@.map_values(|s: String| s@) == dots_of(
                spec_graphs(default_exec_config(), sim_run(ctx_for(java_code@)).steps),
            ),
            None => r@.len() == 0,
        },
{
    let tree = match parse_java(java_code) {
        Some(t) => t,
        None => {
            return Vec::new();
        },
    };
    let mut analyzer = JavaAnalyzer::new();
    let analysis = analyzer.analyze(&tree);
    let mut exec_analyzer = ExecutionAnalyzer::new(analysis);
    let flow = exec_analyzer.analyze_execution_flow(&tree, java_code);
    let generator = ExecutionGraphGenerator::new();
    let graphs = generator.generate_execution_graphs(&flow);
    let ghost gview = graphs@.map_values(|g: ExecutionGraphStep| g@);
    let mut out: Vec<String> = Vec::new();
    let mut i: usize = 0;
    proof {
        assert(out@.map_values(|s: String| s@) =~= dots_of(gview).take(0));
    }
    while i < graphs.len()
        invariant
            i <= graphs@.len(),
            gview == graphs@.map_values(|g: ExecutionGraphStep| g@),
            gview.len() == graphs@.len(),
            out@.map_values(|s: String| s@) == dots_of(gview).take(i as int),
        decreases graphs@.len() - i,
    {
        let ghost prev = out@.map_values(|s: String| s@);
        proof {
            assert(gview[i as int] == graphs@[i as int]@);
        }
        out.push(graphs[i].dot_code.clone());
        i = i + 1;
        proof {
            assert(out@.map_values(|s: String| s@) =~= prev.push(gview[i - 1].dot));
            assert(prev.push(gview[i - 1].dot) =~= dots_of(gview).take(i as int));
        }
    }
    proof {
        assert(dots_of(gview).take(gview.len() as int) =~= dots_of(gview));
    }
    out
}

/// The class diagram of the source under the default configuration; an
/// input the parser declines yields the empty text.
pub fn no_flow_gen(java_code: &str) -> (r: String)
    ensures
        match java_parse(java_code@) {
            Some(_) => r@ == spec_dot(
                default_config(),
                spec_analysis(java_parse(java_code@).unwrap()),
            ),
            None => r@.len() == 0,
        },
{
    let tree = match parse_java(java_code) {
        Some(t) => t,
        None => {
            return String::new();
        },
    };
    let mut analyzer = JavaAnalyzer::new();
    let analysis = analyzer.analyze(&tree);
    let generator = GraphGenerator::new();
    generator.generate_dot(&analysis)
}

} // verus!
