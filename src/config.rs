//! The configuration files that override the default system prompts.

use vstd::prelude::*;

verus! {

/// A configuration file that may hold a system prompt.
#[derive(Debug, Clone, Copy, PartialEq, Eq, Structural)]
pub enum ConfigFile {
    CompleteSystemPrompt,
    ChatSystemPrompt,
    AnnotateSystemPrompt,
}

/// The name of a configuration file within the configuration directory.
pub open spec fn config_file_name(c: ConfigFile) -> Seq<char> {
    match c {
        ConfigFile::ChatSystemPrompt => "chat_system_prompt.txt"@,
        ConfigFile::CompleteSystemPrompt => "complete_system_prompt.txt"@,
        ConfigFile::AnnotateSystemPrompt => "annotate_system_prompt.txt"@,
    }
}

impl ConfigFile {
    /// The name of this file within the configuration directory.
    pub fn filename(&self) -> (r: &'static str)
        ensures
            r@ == config_file_name(*self),
    {
        match self {
            Self::ChatSystemPrompt => "chat_system_prompt.txt",
            Self::CompleteSystemPrompt => "complete_system_prompt.txt",
            Self::AnnotateSystemPrompt => "annotate_system_prompt.txt",
        }
    }
}

} // verus!
