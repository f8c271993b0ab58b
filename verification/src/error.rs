//! The library's error taxonomy: user errors are reported verbatim,
//! collaborator errors carry the failing tool's message, state corruption is
//! fatal to the caller.

use vstd::prelude::*;

verus! {

#[derive(Debug, Clone, PartialEq)]
pub enum VibeError {
    Git(String),
    Tmux(String),
    AgentCli(String),
    Template(String),
    Config(String),
    State(String),
    Clipboard(String),
    Watcher(String),
    Io(String),
    Json(String),
    Toml(String),
    SessionNotFound(String),
    AgentNotFound(String),
    NotGitRepo,
    NoReposFound,
    NotInitialized,
    TmuxNotInstalled,
    AgentCliNotInstalled,
    User(String),
}

impl VibeError {
    /// The user-facing message for this error: the variant's fixed prefix
    /// followed by its payload, and the payload verbatim for a user error.
    pub fn text(&self) -> (r: String)
        ensures
            self is Git ==> r@ == "Git error: "@ + self->Git_0@,
            self is Tmux ==> r@ == "tmux error: "@ + self->Tmux_0@,
            self is AgentCli ==> r@ == "Agent CLI error: "@ + self->AgentCli_0@,
            self is Template ==> r@ == "Template error: "@ + self->Template_0@,
            self is Config ==> r@ == "Config error: "@ + self->Config_0@,
            self is State ==> r@ == "State error: "@ + self->State_0@,
            self is Clipboard ==> r@ == "Clipboard error: "@ + self->Clipboard_0@,
            self is Watcher ==> r@ == "File watcher error: "@ + self->Watcher_0@,
            self is Io ==> r@ == "IO error: "@ + self->Io_0@,
            self is Json ==> r@ == "JSON error: "@ + self->Json_0@,
            self is Toml ==> r@ == "TOML parse error: "@ + self->Toml_0@,
            self is SessionNotFound ==> r@ == "Session not found: "@ + self->SessionNotFound_0@,
            self is AgentNotFound ==> r@ == "Agent not found: "@ + self->AgentNotFound_0@,
            self is NotGitRepo ==> r@ == "Not a git repository"@,
            self is NoReposFound ==> r@ == "No git repositories found in directory"@,
            self is NotInitialized ==> r@ == "Vibe not initialized. Run `vibe init` first."@,
            self is TmuxNotInstalled ==> r@
                == "tmux not installed. Install with: brew install tmux"@,
            self is AgentCliNotInstalled ==> r@ == "agent CLI not found. Install it first."@,
            self is User ==> r@ == self->User_0@,
    {
        match self {
            VibeError::Git(m) => crate::strutil::concat2("Git error: ", m.as_str()),
            VibeError::Tmux(m) => crate::strutil::concat2("tmux error: ", m.as_str()),
            VibeError::AgentCli(m) => crate::strutil::concat2("Agent CLI error: ", m.as_str()),
            VibeError::Template(m) => crate::strutil::concat2("Template error: ", m.as_str()),
            VibeError::Config(m) => crate::strutil::concat2("Config error: ", m.as_str()),
            VibeError::State(m) => crate::strutil::concat2("State error: ", m.as_str()),
            VibeError::Clipboard(m) => crate::strutil::concat2("Clipboard error: ", m.as_str()),
            VibeError::Watcher(m) => crate::strutil::concat2("File watcher error: ", m.as_str()),
            VibeError::Io(m) => crate::strutil::concat2("IO error: ", m.as_str()),
            VibeError::Json(m) => crate::strutil::concat2("JSON error: ", m.as_str()),
            VibeError::Toml(m) => crate::strutil::concat2("TOML parse error: ", m.as_str()),
            VibeError::SessionNotFound(m) => crate::strutil::concat2(
                "Session not found: ",
                m.as_str(),
            ),
            VibeError::AgentNotFound(m) => crate::strutil::concat2("Agent not found: ", m.as_str()),
            VibeError::NotGitRepo => "Not a git repository".to_owned(),
            VibeError::NoReposFound => "No git repositories found in directory".to_owned(),
            VibeError::NotInitialized => "Vibe not initialized. Run `vibe init` first.".to_owned(),
            VibeError::TmuxNotInstalled => "tmux not installed. Install with: brew install tmux".to_owned(),
            VibeError::AgentCliNotInstalled => "agent CLI not found. Install it first.".to_owned(),
            VibeError::User(m) => m.as_str().to_owned(),
        }
    }
}

} // verus!
