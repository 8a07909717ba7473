//! The arguments of the tools the model calls.

use vstd::prelude::*;

verus! {

/// Arguments of the web search tool.
pub struct WebSearchParams {
    pub query: String,
    pub max_results: usize,
}

/// Arguments of the shell tool: a command and its time limit in seconds.
pub struct ShellParams {
    pub timeout: u32,
    pub command: String,
}

/// Arguments of the tool that reads a file: from line `offset` (from one), `limit` lines.
pub struct ReadFileParams {
    pub filename: String,
    pub offset: Option<usize>,
    pub limit: Option<usize>,
}

/// Arguments of the tool that writes a file.
pub struct WriteFileParams {
    pub filename: String,
    pub content: String,
}

/// Arguments of the tool that edits a file: the text to find and the text to put instead.
pub struct EditFileParams {
    pub filename: String,
    pub oldcontent: String,
    pub newcontent: String,
}

/// Arguments of the tool that runs a registered LangGraph workflow.
pub struct LangGraphRunParams {
    pub server_id: String,
    pub input: String,
    pub assistant_id: Option<String>,
    pub graph: Option<String>,
    pub thread_id: Option<String>,
    pub files: Option<Vec<String>>,
    pub skill_names: Option<Vec<String>>,
    pub context_scope: Option<String>,
}

} // verus!
