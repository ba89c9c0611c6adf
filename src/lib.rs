//! A forward-chaining inference engine over entity-attribute-value facts,
//! together with the plain-data types that the surrounding orchestration
//! layer builds on.
use vstd::prelude::*;

pub mod text;
pub mod symbolic;
pub mod store;
pub mod laws;
pub mod engine;
pub mod orchestrator;
pub mod hybrid;
pub mod json;

pub use engine::SymbolicEngine;
pub use hybrid::{HybridError, HybridPlanner};
pub use orchestrator::{HttpTool, HyperError, HyperResult, Orchestrator, ReasoningResult};
pub use store::FactStore;
pub use symbolic::{Condition, Fact, Operator, Rule, SymbolicError, SymbolicResult};

verus! {

} // verus!
