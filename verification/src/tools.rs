//! Tools: external commands that an agent may invoke during a conversation.

use vstd::prelude::*;
use vstd::string::StringExecFns;

pub mod json;
pub mod yaml;

pub use yaml::YamlTool;

verus! {

/// A failure reported by a tool.
#[derive(Debug)]
pub struct ToolError {
    message: String,
}

impl View for ToolError {
    type V = Seq<char>;

    closed spec fn view(&self) -> Seq<char> {
        self.message@
    }
}

impl ToolError {
    /// A failure told as `message`.
    pub fn new(message: &str) -> (e: Self)
        ensures
            e@ == message@,
    {
        Self { message: String::from_str(message) }
    }

    /// The failure in words.
    pub fn message(&self) -> (m: &String)
        ensures
            m@ == self@,
    {
        &self.message
    }

    /// How the error is shown: a fixed text, whatever the message.
    pub fn to_string(&self) -> (s: String)
        ensures
            s@ == "Math error"@,
    {
        String::from_str("Math error")
    }
}

} // verus!
