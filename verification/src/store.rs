//! The state store: the directory layout it owns, the idempotent ignore-file
//! update, and a model of the atomic save protocol (write a temporary file,
//! then rename it over the canonical file).

use vstd::prelude::*;
use crate::strutil;
use crate::strutil::contains_seq;

verus! {

/// Knows where the managed directory and the canonical state file live.
pub struct StateManager {
    pub vibe_dir: String,
    pub state_file: String,
}

impl StateManager {
    /// Paths derived from the workspace root: the managed directory and the
    /// canonical state file inside it.
    pub fn new(workspace_root: &str) -> (r: StateManager)
        ensures
            r.vibe_dir@ == workspace_root@ + "/.vibe"@,
            r.state_file@ == workspace_root@ + "/.vibe"@ + "/workspace.json"@,
    {
        let vibe_dir = strutil::concat2(workspace_root, "/.vibe");
        let state_file = strutil::concat2(vibe_dir.as_str(), "/workspace.json");
        StateManager { vibe_dir, state_file }
    }

    pub open spec fn spec_vibe_dir(&self) -> Seq<char> {
        self.vibe_dir@
    }

    /// The managed directory.
    pub fn vibe_dir(&self) -> (r: &str)
        ensures
            r@ == self.spec_vibe_dir(),
    {
        self.vibe_dir.as_str()
    }

    /// The canonical state file.
    pub fn state_file(&self) -> (r: &str)
        ensures
            r@ == self.state_file@,
    {
        self.state_file.as_str()
    }

    /// Where agent output artifacts live.
    pub fn agents_dir(&self) -> (r: String)
        ensures
            r@ == self.spec_vibe_dir() + "/agents"@,
    {
        strutil::concat2(self.vibe_dir.as_str(), "/agents")
    }

    /// Where plan documents live.
    pub fn plans_dir(&self) -> (r: String)
        ensures
            r@ == self.spec_vibe_dir() + "/plans"@,
    {
        strutil::concat2(self.vibe_dir.as_str(), "/plans")
    }

    /// Where template documents live.
    pub fn templates_dir(&self) -> (r: String)
        ensures
            r@ == self.spec_vibe_dir() + "/templates"@,
    {
        strutil::concat2(self.vibe_dir.as_str(), "/templates")
    }
}

/// The line block appended to an ignore file that does not yet ignore the
/// managed directory.
pub open spec fn ignore_block() -> Seq<char> {
    "\n# Vibe agent orchestrator\n.vibe/\n"@
}

/// The content written to a fresh ignore file.
pub open spec fn ignore_fresh() -> Seq<char> {
    "# Vibe agent orchestrator\n.vibe/\n"@
}

/// What the ignore-file update writes: the fresh content when no file
/// exists, an appended marker when the marker is absent, and nothing at all
/// when the marker is already there.
pub open spec fn ignore_update_spec(existing: Option<Seq<char>>) -> Option<Seq<char>> {
    match existing {
        None => Some(ignore_fresh()),
        Some(c) => if contains_seq(c, ".vibe/"@) {
            None
        } else {
            Some(c + ignore_block())
        },
    }
}

/// Decides the idempotent ignore-file update: returns the new content to
/// write, or `None` when the file already ignores the managed directory.
pub fn gitignore_update(existing: Option<&str>) -> (r: Option<String>)
    ensures
        match r {
            Some(c) => ignore_update_spec(
                match existing {
                    Some(e) => Some(e@),
                    None => None,
                },
            ) == Some(c@),
            None => ignore_update_spec(
                match existing {
                    Some(e) => Some(e@),
                    None => None,
                },
            ) is None,
        },
{
    match existing {
        None => Some("# Vibe agent orchestrator\n.vibe/\n".to_owned()),
        Some(c) => {
            if strutil::str_contains(c, ".vibe/") {
                None
            } else {
                Some(strutil::concat2(c, "\n# Vibe agent orchestrator\n.vibe/\n"))
            }
        },
    }
}

/// Updating an ignore file a second time writes nothing: the appended block
/// contains the marker, so the update is idempotent.
pub proof fn lemma_gitignore_idempotent(existing: Option<Seq<char>>)
    ensures
        ignore_update_spec(existing) matches Some(c) ==> ignore_update_spec(Some(c)) is None,
{
    reveal_strlit("\n# Vibe agent orchestrator\n.vibe/\n");
    reveal_strlit("# Vibe agent orchestrator\n.vibe/\n");
    reveal_strlit(".vibe/");
    match existing {
        None => {
            let c = ignore_fresh();
            assert(c.subrange(26, 32) =~= ".vibe/"@);
            assert(strutil::matches_at(c, ".vibe/"@, 26));
        },
        Some(e) => {
            if !contains_seq(e, ".vibe/"@) {
                let c = e + ignore_block();
                let at: int = e.len() as int + 27;
                assert(c.subrange(at, at + 6) =~= ".vibe/"@);
                assert(strutil::matches_at(c, ".vibe/"@, at));
            }
        },
    }
}

/// A model of the on-disk state the save protocol touches: the canonical
/// file and the temporary file beside it. The rename step is atomic, as the
/// platform guarantees for a rename within one directory.
pub struct DiskModel {
    pub canonical: Option<Seq<char>>,
    pub temp: Option<Seq<char>>,
}

/// Step one of a save: the new document is written to the temporary file.
pub open spec fn save_write_temp(d: DiskModel, doc: Seq<char>) -> DiskModel {
    DiskModel { canonical: d.canonical, temp: Some(doc) }
}

/// Step two of a save: the temporary file is renamed over the canonical
/// file in one atomic step.
pub open spec fn save_rename(d: DiskModel) -> DiskModel {
    DiskModel { canonical: d.temp, temp: None }
}

/// What a later load observes: the canonical file only.
pub open spec fn load_model(d: DiskModel) -> Option<Seq<char>> {
    d.canonical
}

/// The disk after `steps` of the save protocol have run (0, 1 or 2).
pub open spec fn save_progress(d: DiskModel, doc: Seq<char>, steps: int) -> DiskModel {
    if steps <= 0 {
        d
    } else if steps == 1 {
        save_write_temp(d, doc)
    } else {
        save_rename(save_write_temp(d, doc))
    }
}

/// A save interrupted at any point leaves a load seeing either the previous
/// document or the new one, never a partial mixture: before the rename the
/// canonical file is untouched, and after it the new document is complete.
pub proof fn lemma_save_atomic(d: DiskModel, doc: Seq<char>, steps: int)
    requires
        0 <= steps <= 2,
    ensures
        load_model(save_progress(d, doc, steps)) == d.canonical || load_model(
            save_progress(d, doc, steps),
        ) == Some(doc),
        steps < 2 ==> load_model(save_progress(d, doc, steps)) == d.canonical,
        steps == 2 ==> load_model(save_progress(d, doc, steps)) == Some(doc),
{
}

} // verus!
