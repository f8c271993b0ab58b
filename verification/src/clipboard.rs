//! The text handed to the system clipboard when an agent result is
//! exported. The clipboard call itself happens outside; the formatting is
//! the library's.

use vstd::prelude::*;
use crate::domain::agent::AgentResult;
use crate::strutil;
use crate::strutil::dec_rep;

verus! {

/// The duration in tenths of a second, rounded to the nearest tenth.
pub open spec fn duration_tenths(ms: u64) -> int {
    ms / 100 + (if ms % 100 >= 50 {
        1int
    } else {
        0int
    })
}

/// Formats an agent result for the clipboard: a heading with the agent's
/// name, the raw result (or the summary when no raw text was kept), and
/// the duration in seconds with one decimal.
pub fn agent_result_clipboard_text(result: &AgentResult, agent_name: &str) -> (r: String)
    ensures
        r@ == "## Agent: "@ + agent_name@ + "\n\n"@ + (match result.raw_result {
            Some(t) => t@,
            None => result.summary@,
        }) + "\n\n---\n*Duration: "@ + dec_rep((duration_tenths(result.duration_ms) / 10) as u64)
            + seq!['.'] + dec_rep((duration_tenths(result.duration_ms) % 10) as u64) + "s*"@,
{
    let tenths: u64 = result.duration_ms / 100 + (if result.duration_ms % 100 >= 50 {
        1
    } else {
        0
    });
    let secs = strutil::u64_to_string(tenths / 10);
    let frac = strutil::u64_to_string(tenths % 10);
    let body = match &result.raw_result {
        Some(t) => t.as_str(),
        None => result.summary.as_str(),
    };
    let mut out = strutil::concat3("## Agent: ", agent_name, "\n\n");
    out = strutil::concat3(out.as_str(), body, "\n\n---\n*Duration: ");
    out = strutil::concat3(out.as_str(), secs.as_str(), ".");
    out = strutil::concat3(out.as_str(), frac.as_str(), "s*");
    proof {
        reveal_strlit(".");
        assert("."@ =~= seq!['.']);
        assert(out@ =~= "## Agent: "@ + agent_name@ + "\n\n"@ + (match result.raw_result {
            Some(t) => t@,
            None => result.summary@,
        }) + "\n\n---\n*Duration: "@ + dec_rep((duration_tenths(result.duration_ms) / 10) as u64)
            + seq!['.'] + dec_rep((duration_tenths(result.duration_ms) % 10) as u64) + "s*"@);
    }
    out
}

} // verus!
