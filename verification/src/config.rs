//! The gateway's startup configuration: agents, tools, endpoints, and the
//! read-only registries the per-request flow consults.

use vstd::prelude::*;

verus! {

use crate::templater::{HttpMethod, Parameter};

/// A named bundle of prompts and callable tools.
#[derive(Debug)]
pub struct Agent {
    pub name: String,
    pub tools: Option<Vec<String>>,
    pub system_prompt: Option<String>,
    pub agent_orchestrator_prompt: Option<String>,
}

/// Where a tool's HTTP endpoint lives and how it is called.
#[derive(Debug)]
pub struct ToolEndpoint {
    pub name: String,
    pub path: Option<String>,
    pub method: Option<HttpMethod>,
    pub http_headers: Option<Vec<(String, String)>>,
}

/// A tool: an HTTP endpoint with a declared parameter schema.
#[derive(Debug)]
pub struct Tool {
    pub name: String,
    pub description: String,
    pub endpoint: Option<ToolEndpoint>,
    pub parameters: Option<Vec<Parameter>>,
}

/// A logical upstream service.
#[derive(Debug)]
pub struct Endpoint {
    pub name: String,
    pub agent_orchestrator: Option<bool>,
}

/// An upstream LLM provider, with the usage text the router matches on.
#[derive(Debug)]
pub struct LlmProvider {
    pub name: String,
    pub usage: Option<String>,
}

/// Feature switches of the configuration file.
#[derive(Debug, Clone, Copy, PartialEq, Eq, Structural)]
pub struct Overrides {
    pub use_agent_orchestrator: Option<bool>,
    pub optimize_context_window: Option<bool>,
}

/// Tracing switches of the configuration file.
#[derive(Debug, Clone, Copy, PartialEq, Eq, Structural)]
pub struct TracingConfig {
    pub trace_arch_internal: Option<bool>,
}

/// Everything the per-request flow reads, loaded once at startup.
#[derive(Debug)]
pub struct GatewayConfig {
    pub agents: Vec<Agent>,
    pub tools: Vec<Tool>,
    pub endpoints: Vec<Endpoint>,
    pub overrides: Option<Overrides>,
    pub tracing: Option<TracingConfig>,
}

/// Whether spans internal to the gateway should be emitted.
pub fn trace_arch_internal_enabled(tracing: &Option<TracingConfig>) -> (r: bool)
    ensures
        r == match *tracing {
            Some(t) => t.trace_arch_internal == Some(true),
            None => false,
        },
{
    match tracing {
        Some(t) => match t.trace_arch_internal {
            Some(b) => b,
            None => false,
        },
        None => false,
    }
}

/// The index of the agent with the given name.
pub fn find_agent(agents: &Vec<Agent>, name: &str) -> (r: Option<usize>)
    ensures
        match r {
            Some(j) => j < agents@.len() && agents@[j as int].name@ == name@,
            None => forall|k: int| 0 <= k < agents@.len() ==> agents@[k].name@ != name@,
        },
{
    let mut i: usize = 0;
    while i < agents.len()
        invariant
            i <= agents@.len(),
            forall|k: int| 0 <= k < i ==> agents@[k].name@ != name@,
        decreases agents@.len() - i,
    {
        if crate::strkit::str_eq(agents[i].name.as_str(), name) {
            return Some(i);
        }
        i = i + 1;
    }
    None
}

/// The index of the tool with the given name.
pub fn find_tool(tools: &Vec<Tool>, name: &str) -> (r: Option<usize>)
    ensures
        match r {
            Some(j) => j < tools@.len() && tools@[j as int].name@ == name@,
            None => forall|k: int| 0 <= k < tools@.len() ==> tools@[k].name@ != name@,
        },
{
    let mut i: usize = 0;
    while i < tools.len()
        invariant
            i <= tools@.len(),
            forall|k: int| 0 <= k < i ==> tools@[k].name@ != name@,
        decreases tools@.len() - i,
    {
        if crate::strkit::str_eq(tools[i].name.as_str(), name) {
            return Some(i);
        }
        i = i + 1;
    }
    None
}

} // verus!
