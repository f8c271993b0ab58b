//! Configuration: the global and per-workspace settings the orchestrator
//! reads, and the derivations on them (key labels, directory resolution).
//! Loading and merging the files happens outside; the values live here.

use vstd::prelude::*;
use crate::strutil;
use crate::strutil::{find_first, dec_rep, all_digits, digits_val};

verus! {

/// User-wide settings.
#[derive(Debug, Clone, PartialEq)]
pub struct GlobalConfig {
    pub tmux_session_prefix: String,
    pub worktree_suffix: String,
    pub agent_extra_args: Vec<String>,
    pub template_dirs: Vec<String>,
    pub clipboard_on_complete: bool,
    pub notify_on_complete: bool,
    pub max_concurrent_agents: Option<usize>,
    /// Control-sequence suffix of the dashboard key, such as `[29~`.
    pub dashboard_key: String,
    /// Control-sequence suffix of the overview key, such as `[33~`.
    pub overview_key: String,
    /// The multiplexer's escape time in milliseconds.
    pub escape_time_ms: u32,
}

impl Default for GlobalConfig {
    /// The built-in defaults.
    fn default() -> (r: GlobalConfig)
        ensures
            r.tmux_session_prefix@ == "vibe-"@,
            r.worktree_suffix@ == "-vibe-"@,
            r.agent_extra_args@.len() == 0,
            r.template_dirs@.len() == 0,
            r.clipboard_on_complete,
            r.notify_on_complete,
            r.max_concurrent_agents is None,
            r.dashboard_key@ == "[29~"@,
            r.overview_key@ == "[33~"@,
            r.escape_time_ms == 100,
    {
        GlobalConfig {
            tmux_session_prefix: "vibe-".to_owned(),
            worktree_suffix: "-vibe-".to_owned(),
            agent_extra_args: Vec::new(),
            template_dirs: Vec::new(),
            clipboard_on_complete: true,
            notify_on_complete: true,
            max_concurrent_agents: None,
            dashboard_key: "[29~".to_owned(),
            overview_key: "[33~".to_owned(),
            escape_time_ms: 100,
        }
    }
}

/// Per-workspace overrides.
#[derive(Debug, Clone, PartialEq)]
pub struct WorkspaceConfig {
    pub worktree_base_dir: Option<String>,
    pub default_branch: Option<String>,
    pub template_dir: Option<String>,
    pub pre_session_hook: Option<String>,
    pub post_session_hook: Option<String>,
}

impl Default for WorkspaceConfig {
    /// No overrides.
    fn default() -> (r: WorkspaceConfig)
        ensures
            r.worktree_base_dir is None,
            r.default_branch is None,
            r.template_dir is None,
            r.pre_session_hook is None,
            r.post_session_hook is None,
    {
        WorkspaceConfig {
            worktree_base_dir: None,
            default_branch: None,
            template_dir: None,
            pre_session_hook: None,
            post_session_hook: None,
        }
    }
}

/// The merged view the commands consume.
#[derive(Debug, Clone, PartialEq)]
pub struct MergedConfig {
    pub global: GlobalConfig,
    pub workspace: WorkspaceConfig,
    pub global_config_dir: String,
}

/// The parent of a path: the text before its last separator, the root for
/// a top-level entry, and `None` for a bare name.
pub open spec fn parent_path_of(s: Seq<char>) -> Option<Seq<char>> {
    let rev_first = find_first(s.reverse(), '/');
    if rev_first < 0 {
        None
    } else {
        let last = s.len() - 1 - rev_first;
        if last == 0 {
            Some("/"@)
        } else {
            Some(s.take(last))
        }
    }
}

/// The parent directory of a path, when it has one.
pub fn parent_path(s: &str) -> (r: Option<String>)
    ensures
        match r {
            Some(p) => parent_path_of(s@) == Some(p@),
            None => parent_path_of(s@) is None,
        },
{
    let n = s.unicode_len();
    let mut i: usize = n;
    while i > 0
        invariant
            n == s@.len(),
            0 <= i <= n,
            forall|j: int| i <= j < n ==> s@[j] != '/',
        decreases i,
    {
        if s.get_char(i - 1) == '/' {
            proof {
                strutil::lemma_find_first(s@.reverse(), '/');
                assert(forall|j: int|
                    0 <= j < s@.reverse().len() ==> #[trigger] s@.reverse()[j] == s@[s@.len() - 1
                        - j]);
                let f = find_first(s@.reverse(), '/');
                assert(s@.reverse()[n - i] == s@[i - 1]);
                if f < 0 {
                    assert(s@.reverse()[n - i] != '/');
                    assert(false);
                }
                if f < n - i {
                    assert(s@.reverse()[f] == '/');
                    assert(s@[n - 1 - f] != '/');
                    assert(false);
                }
                if f > n - i {
                    assert(s@.reverse()[n - i] != '/');
                    assert(false);
                }
                assert(n - 1 - f == i - 1);
            }
            if i - 1 == 0 {
                return Some("/".to_owned());
            }
            let head = s.substring_char(0, i - 1);
            proof {
                assert(head@ =~= s@.take(i - 1));
            }
            return Some(head.to_owned());
        }
        i = i - 1;
    }
    proof {
        strutil::lemma_find_first(s@.reverse(), '/');
        assert(forall|j: int|
            0 <= j < s@.reverse().len() ==> #[trigger] s@.reverse()[j] == s@[s@.len() - 1 - j]);
        let f = find_first(s@.reverse(), '/');
        if f >= 0 {
            assert(s@.reverse()[f] == '/');
            assert(s@[n - 1 - f] != '/');
            assert(false);
        }
    }
    None
}

impl MergedConfig {
    /// The prefix the multiplexer session name starts with.
    pub fn tmux_session_prefix(&self) -> (r: &str)
        ensures
            r@ == self.global.tmux_session_prefix@,
    {
        self.global.tmux_session_prefix.as_str()
    }

    /// Where working copies live: the workspace override, else the parent
    /// of the workspace root, else the root itself.
    pub fn worktree_base_dir(&self, workspace_root: &str) -> (r: String)
        ensures
            match self.workspace.worktree_base_dir {
                Some(d) => r@ == d@,
                None => match parent_path_of(workspace_root@) {
                    Some(p) => r@ == p,
                    None => r@ == workspace_root@,
                },
            },
    {
        match &self.workspace.worktree_base_dir {
            Some(d) => d.clone(),
            None => match parent_path(workspace_root) {
                Some(p) => p,
                None => workspace_root.to_owned(),
            },
        }
    }

    /// The template directories in priority order, before any existence
    /// filtering: the workspace's own, its configured extra directory, the
    /// user-wide one, then the globally configured extras.
    pub fn template_dir_candidates(&self, workspace_root: &str) -> (r: Vec<String>)
        ensures
            r@.len() >= 2,
            r@[0]@ == workspace_root@ + "/.vibe/templates"@,
            r@[1]@ == (match self.workspace.template_dir {
                Some(d) => d@,
                None => self.global_config_dir@ + "/templates"@,
            }),
    {
        let mut dirs: Vec<String> = Vec::new();
        dirs.push(strutil::concat2(workspace_root, "/.vibe/templates"));
        match &self.workspace.template_dir {
            Some(d) => {
                dirs.push(d.clone());
                dirs.push(strutil::concat2(self.global_config_dir.as_str(), "/templates"));
            },
            None => {
                dirs.push(strutil::concat2(self.global_config_dir.as_str(), "/templates"));
            },
        }
        let mut i: usize = 0;
        while i < self.global.template_dirs.len()
            invariant
                dirs@.len() >= 2,
                dirs@[0]@ == workspace_root@ + "/.vibe/templates"@,
                dirs@[1]@ == (match self.workspace.template_dir {
                    Some(d) => d@,
                    None => self.global_config_dir@ + "/templates"@,
                }),
            decreases self.global.template_dirs@.len() - i,
        {
            dirs.push(self.global.template_dirs[i].clone());
            i = i + 1;
        }
        dirs
    }
}

/// The function-key number a control-sequence suffix of the form `[N~`
/// selects, per the common terminal mapping, when it selects one.
pub open spec fn fkey_of(n: int) -> Option<u8> {
    if 11 <= n <= 15 {
        Some((n - 10) as u8)
    } else if 17 <= n <= 21 {
        Some((n - 11) as u8)
    } else if 23 <= n <= 24 {
        Some((n - 12) as u8)
    } else if 25 <= n <= 26 {
        Some((n - 12) as u8)
    } else if 28 <= n <= 29 {
        Some((n - 13) as u8)
    } else if 31 <= n <= 34 {
        Some((n - 14) as u8)
    } else {
        None
    }
}

/// The digits between `[` and `~` of a key suffix, when it has that shape.
pub open spec fn csi_number_of(s: Seq<char>) -> Option<int> {
    if s.len() >= 3 && s[0] == '[' && s.last() == '~' && {
        let digits = s.subrange(1, s.len() - 1);
        all_digits(digits) && digits.len() >= 1 && digits_val(digits) <= u64::MAX
    } {
        Some(digits_val(s.subrange(1, s.len() - 1)))
    } else {
        None
    }
}

/// The function-key number a key suffix maps to, when it maps to one.
pub fn csi_fkey_number(suffix: &str) -> (r: Option<u8>)
    ensures
        r == (match csi_number_of(suffix@) {
            Some(n) => fkey_of(n),
            None => None::<u8>,
        }),
{
    let n = suffix.unicode_len();
    if n < 3 {
        return None;
    }
    if suffix.get_char(0) != '[' {
        return None;
    }
    if suffix.get_char(n - 1) != '~' {
        return None;
    }
    let inner = suffix.substring_char(1, n - 1);
    proof {
        assert(inner@ =~= suffix@.subrange(1, suffix@.len() - 1));
    }
    let num = match strutil::parse_u64(inner) {
        Some(v) => v,
        None => {
            return None;
        },
    };
    proof {
        strutil::lemma_digits_val_nonneg(suffix@.subrange(1, suffix@.len() - 1));
    }
    if 11 <= num && num <= 15 {
        Some((num - 10) as u8)
    } else if 17 <= num && num <= 21 {
        Some((num - 11) as u8)
    } else if 23 <= num && num <= 24 {
        Some((num - 12) as u8)
    } else if 25 <= num && num <= 26 {
        Some((num - 12) as u8)
    } else if 28 <= num && num <= 29 {
        Some((num - 13) as u8)
    } else if 31 <= num && num <= 34 {
        Some((num - 14) as u8)
    } else {
        None
    }
}

/// A readable label for a key suffix: the function-key name when the
/// suffix maps to one, else the suffix itself.
pub fn csi_display_name(suffix: &str) -> (r: String)
    ensures
        match csi_number_of(suffix@) {
            Some(n) => match fkey_of(n) {
                Some(k) => r@ == seq!['F'] + dec_rep(k as u64),
                None => r@ == suffix@,
            },
            None => r@ == suffix@,
        },
{
    match csi_fkey_number(suffix) {
        Some(k) => {
            let num = strutil::u64_to_string(k as u64);
            let r = strutil::concat2("F", num.as_str());
            proof {
                reveal_strlit("F");
                assert("F"@ =~= seq!['F']);
            }
            r
        },
        None => suffix.to_owned(),
    }
}

impl GlobalConfig {
    /// The label shown for the dashboard key.
    pub fn dashboard_key_display(&self) -> (r: String)
        ensures
            match csi_number_of(self.dashboard_key@) {
                Some(n) => match fkey_of(n) {
                    Some(k) => r@ == seq!['F'] + dec_rep(k as u64),
                    None => r@ == self.dashboard_key@,
                },
                None => r@ == self.dashboard_key@,
            },
    {
        csi_display_name(self.dashboard_key.as_str())
    }

    /// The label shown for the overview key.
    pub fn overview_key_display(&self) -> (r: String)
        ensures
            match csi_number_of(self.overview_key@) {
                Some(n) => match fkey_of(n) {
                    Some(k) => r@ == seq!['F'] + dec_rep(k as u64),
                    None => r@ == self.overview_key@,
                },
                None => r@ == self.overview_key@,
            },
    {
        csi_display_name(self.overview_key.as_str())
    }
}

} // verus!
