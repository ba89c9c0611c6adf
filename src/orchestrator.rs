//! The orchestration layer's plain data: its error type, the reasoning
//! result, the orchestrator itself and the HTTP tool.
use vstd::prelude::*;

verus! {

/// Errors of the orchestration layer.
#[derive(Debug)]
pub enum HyperError {
    Llm(String),
    Tool(String),
    Other(String),
}

pub type HyperResult<T> = Result<T, HyperError>;

/// The outcome of reasoning about a goal: a conclusion and the trace of the
/// stages that led to it.
#[derive(Debug)]
pub struct ReasoningResult {
    pub conclusion: String,
    pub trace: Vec<String>,
}

/// Sequences the stages of reasoning about a goal.
pub struct Orchestrator {}

/// The conclusion reported for `goal`.
pub open spec fn conclusion_for(goal: Seq<char>) -> Seq<char> {
    "Processed goal: "@ + goal
}

/// The stages that every reasoning run goes through.
pub open spec fn reasoning_trace() -> Seq<Seq<char>> {
    seq!["Initialized"@, "Analyzed"@, "Concluded"@]
}

impl Orchestrator {
    pub fn new() -> (r: Orchestrator) {
        Orchestrator {}
    }

    /// Reasons about `goal`; this stage always succeeds.
    pub fn reason(&self, goal: &str) -> (r: Result<ReasoningResult, HyperError>)
        ensures
            r is Ok,
            r->Ok_0.conclusion@ == conclusion_for(goal@),
            r->Ok_0.trace@.map_values(|s: String| s@) == reasoning_trace(),
    {
        let conclusion = "Processed goal: ".to_string().concat(goal);
        let mut trace: Vec<String> = Vec::new();
        trace.push("Initialized".to_string());
        trace.push("Analyzed".to_string());
        trace.push("Concluded".to_string());
        assert(trace@.map_values(|s: String| s@) =~= reasoning_trace());
        Ok(ReasoningResult { conclusion, trace })
    }
}

/// A tool that answers a request by echoing it.
pub struct HttpTool {}

/// The answer of the HTTP tool to `input`.
pub open spec fn http_answer(input: Seq<char>) -> Seq<char> {
    "HTTP_TOOL_CALLED with: "@ + input
}

impl HttpTool {
    pub fn new() -> (r: HttpTool) {
        HttpTool {}
    }

    /// Answers `input`; this tool never fails.
    pub fn call(&self, input: &str) -> (r: Result<String, HyperError>)
        ensures
            r is Ok,
            r->Ok_0@ == http_answer(input@),
    {
        Ok("HTTP_TOOL_CALLED with: ".to_string().concat(input))
    }
}

} // verus!
