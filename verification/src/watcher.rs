//! The output watcher's decision: turning a write under the agents
//! directory into a typed event. The filesystem notification and the file
//! read happen outside; this classifies what they found.

use vstd::prelude::*;
use crate::agent_cli::AgentCliOutput;
use crate::domain::agent::AgentResult;
use crate::ids;
use crate::strutil;
use crate::strutil::split_seq;

verus! {

/// What the watcher reports.
#[derive(Debug)]
pub enum WatcherEvent {
    /// A known agent's output artifact appeared and parsed.
    AgentCompleted { agent_id: u128, result: AgentResult },
    /// An output artifact appeared whose directory names no known agent.
    AgentOutputWritten { path: String },
}

/// The last path segment.
pub open spec fn path_file_name(p: Seq<char>) -> Seq<char> {
    split_seq(p, '/').last()
}

/// The next-to-last path segment, or empty for a bare file name.
pub open spec fn path_parent_name(p: Seq<char>) -> Seq<char> {
    let parts = split_seq(p, '/');
    if parts.len() >= 2 {
        parts[parts.len() - 2]
    } else {
        Seq::empty()
    }
}

/// Classifies a file event: only writes to an output artifact matter; when
/// its directory names an agent, a parsed artifact completes that agent and
/// an unparsable one is dropped; otherwise the write is reported as is.
pub fn watch_classify(path: &str, parsed: Option<&AgentCliOutput>) -> (r: Option<WatcherEvent>)
    ensures
        path_file_name(path@) != "output.json"@ ==> r is None,
        (path_file_name(path@) == "output.json"@ && ids::uuid_of_chars(path_parent_name(path@))
            is Some) ==> (match parsed {
            Some(o) => r matches Some(ev) && ev matches WatcherEvent::AgentCompleted {
                agent_id,
                result,
            } && Some(agent_id) == ids::uuid_of_chars(path_parent_name(path@)) && result.success
                == (!o.is_error && o.subtype@ == "success"@) && result.summary@
                == crate::agent_cli::summary_of(o.result@, 500) && result.duration_ms
                == o.duration_ms && result.session_id@ == o.session_id@ && (result.raw_result
                matches Some(t) && t@ == o.result@),
            None => r is None,
        }),
        path_file_name(path@) == "output.json"@ && ids::uuid_of_chars(path_parent_name(path@))
            is None ==> (r matches Some(ev) && ev matches WatcherEvent::AgentOutputWritten { path: p }
            && p@ == path@),
{
    let parts = strutil::split_char(path, '/');
    proof {
        assert(split_seq(path@, '/').len() > 0);
        assert(parts@.len() == parts.deep_view().len());
    }
    let fname = &parts[parts.len() - 1];
    proof {
        assert(fname@ == path_file_name(path@));
    }
    if !strutil::str_eq(fname.as_str(), "output.json") {
        return None;
    }
    let parent_id = if parts.len() >= 2 {
        let pname = &parts[parts.len() - 2];
        proof {
            assert(pname@ == path_parent_name(path@));
        }
        ids::parse_uuid(pname.as_str())
    } else {
        ids::parse_uuid("")
    };
    proof {
        if parts.len() < 2 {
            assert(path_parent_name(path@) =~= ""@) by {
                reveal_strlit("");
            }
        }
    }
    match parent_id {
        Some(id) => match parsed {
            Some(o) => {
                let result = crate::agent_cli::to_agent_result(o);
                Some(WatcherEvent::AgentCompleted { agent_id: id, result })
            },
            None => None,
        },
        None => Some(WatcherEvent::AgentOutputWritten { path: path.to_owned() }),
    }
}

} // verus!
