//! Process-controller decisions for the external terminal multiplexer:
//! classifying failures as transient or benign, the bounded retry schedule,
//! the atomic navigation-binding batches with their ownership lock, the
//! output parsers, and the idempotence of resource creation.

use vstd::prelude::*;
use crate::strutil;
use crate::strutil::{contains_seq, starts_with_seq, split_seq, all_digits, digits_val};

verus! {

/// The kinds of I/O failure a subprocess call can surface, as the retry
/// policy distinguishes them.
#[derive(Debug, Clone, PartialEq, Eq, Structural)]
pub enum IoKind {
    ConnectionRefused,
    ConnectionReset,
    BrokenPipe,
    TimedOut,
    Interrupted,
    Other,
}

/// True of the I/O failures worth retrying.
pub fn is_transient_io_error(k: &IoKind) -> (r: bool)
    ensures
        r == (k is ConnectionRefused || k is ConnectionReset || k is BrokenPipe || k is TimedOut
            || k is Interrupted),
{
    match k {
        IoKind::ConnectionRefused => true,
        IoKind::ConnectionReset => true,
        IoKind::BrokenPipe => true,
        IoKind::TimedOut => true,
        IoKind::Interrupted => true,
        IoKind::Other => false,
    }
}

/// True of multiplexer diagnostics that indicate a transient failure: the
/// server exited, was lost, or is not running yet.
pub fn is_transient_tmux_error(stderr: &str) -> (r: bool)
    ensures
        r == (contains_seq(stderr@, "server exited"@) || contains_seq(stderr@, "lost server"@)
            || contains_seq(stderr@, "no server running"@)),
{
    if strutil::str_contains(stderr, "server exited") {
        true
    } else if strutil::str_contains(stderr, "lost server") {
        true
    } else {
        strutil::str_contains(stderr, "no server running")
    }
}

/// True of multiplexer diagnostics that a mutating call may ignore: probing
/// or tearing down a resource that is already gone is not a failure.
pub fn is_benign_tmux_error(stderr: &str) -> (r: bool)
    ensures
        r == (contains_seq(stderr@, "no server running"@) || contains_seq(
            stderr@,
            "session not found"@,
        )),
{
    if strutil::str_contains(stderr, "no server running") {
        true
    } else {
        strutil::str_contains(stderr, "session not found")
    }
}

/// The backoff before retry `attempt` (the first call is attempt zero and
/// sleeps nothing).
pub fn tmux_backoff_ms(attempt: u32) -> (r: u64)
    requires
        attempt <= 2,
    ensures
        attempt == 0 ==> r == 0,
        attempt == 1 ==> r == 100,
        attempt == 2 ==> r == 200,
{
    if attempt == 0 {
        0
    } else if attempt == 1 {
        100
    } else {
        200
    }
}

/// What one attempt of a multiplexer command leads to.
#[derive(Debug, PartialEq, Eq, Structural)]
pub enum TmuxStep {
    /// The command succeeded.
    Done,
    /// The command failed against a resource that is already gone; a
    /// mutating call treats this as success.
    BenignOk,
    /// A transient failure with attempts left: back off and retry.
    RetryLater,
    /// A final failure: surface the diagnostic.
    FailNow,
}

/// Classifies one attempt of a mutating multiplexer command: success wins,
/// a missing server or session is benign, a transient diagnostic is retried
/// while attempts remain, anything else fails at once.
pub fn classify_mutating_attempt(success: bool, stderr: &str, attempt: u32) -> (r: TmuxStep)
    ensures
        success ==> r == TmuxStep::Done,
        !success && (contains_seq(stderr@, "no server running"@) || contains_seq(
            stderr@,
            "session not found"@,
        )) ==> r == TmuxStep::BenignOk,
        !success && !(contains_seq(stderr@, "no server running"@) || contains_seq(
            stderr@,
            "session not found"@,
        )) && (contains_seq(stderr@, "server exited"@) || contains_seq(stderr@, "lost server"@))
            && attempt < 2 ==> r == TmuxStep::RetryLater,
        !success && !(contains_seq(stderr@, "no server running"@) || contains_seq(
            stderr@,
            "session not found"@,
        )) && !((contains_seq(stderr@, "server exited"@) || contains_seq(stderr@, "lost server"@))
            && attempt < 2) ==> r == TmuxStep::FailNow,
{
    if success {
        TmuxStep::Done
    } else if is_benign_tmux_error(stderr) {
        TmuxStep::BenignOk
    } else if attempt < 2 && is_transient_tmux_error(stderr) {
        TmuxStep::RetryLater
    } else {
        TmuxStep::FailNow
    }
}

/// Classifies one attempt of an output-reading multiplexer command: no
/// failure is benign, transient diagnostics are retried while attempts
/// remain.
pub fn classify_query_attempt(success: bool, stderr: &str, attempt: u32) -> (r: TmuxStep)
    ensures
        success ==> r == TmuxStep::Done,
        !success && (contains_seq(stderr@, "server exited"@) || contains_seq(
            stderr@,
            "lost server"@,
        ) || contains_seq(stderr@, "no server running"@)) && attempt < 2 ==> r
            == TmuxStep::RetryLater,
        !success && !((contains_seq(stderr@, "server exited"@) || contains_seq(
            stderr@,
            "lost server"@,
        ) || contains_seq(stderr@, "no server running"@)) && attempt < 2) ==> r
            == TmuxStep::FailNow,
{
    if success {
        TmuxStep::Done
    } else if attempt < 2 && is_transient_tmux_error(stderr) {
        TmuxStep::RetryLater
    } else {
        TmuxStep::FailNow
    }
}

/// The batch applied in one round trip to set the shared navigation
/// bindings: both user keys and all four key bindings together, so no
/// observer sees some present and others missing.
pub fn nav_bindings_config(tmux_session: &str, dashboard_key: &str, overview_key: &str) -> (r:
    String)
    ensures
        r@ == "set-option -s user-keys[0] \"\\033"@ + dashboard_key@
            + "\"\nset-option -s user-keys[1] \"\\033"@ + overview_key@
            + "\"\nbind-key -n User0 if-shell -F '"@ + nav_condition(tmux_session@)
            + "' 'select-window -t :dashboard' 'send-keys Escape'\nbind-key -n User1 if-shell -F '"@
            + nav_condition(tmux_session@)
            + "' 'select-window -t :dashboard ; send-keys \u{00a7}' 'send-keys \u{00a7}'\nbind-key d if-shell -F '"@
            + nav_condition(tmux_session@)
            + "' 'select-window -t :dashboard' 'send-keys Escape'\nbind-key o if-shell -F '"@
            + nav_condition(tmux_session@)
            + "' 'select-window -t :dashboard ; send-keys \u{00a7}' 'send-keys \u{00a7}'\n"@,
{
    let cond = nav_condition_text(tmux_session);
    let mut out = strutil::concat2("set-option -s user-keys[0] \"\\033", dashboard_key);
    out = strutil::concat3(out.as_str(), "\"\nset-option -s user-keys[1] \"\\033", overview_key);
    out = strutil::concat3(out.as_str(), "\"\nbind-key -n User0 if-shell -F '", cond.as_str());
    out = strutil::concat3(
        out.as_str(),
        "' 'select-window -t :dashboard' 'send-keys Escape'\nbind-key -n User1 if-shell -F '",
        cond.as_str(),
    );
    out = strutil::concat3(
        out.as_str(),
        "' 'select-window -t :dashboard ; send-keys \u{00a7}' 'send-keys \u{00a7}'\nbind-key d if-shell -F '",
        cond.as_str(),
    );
    out = strutil::concat3(
        out.as_str(),
        "' 'select-window -t :dashboard' 'send-keys Escape'\nbind-key o if-shell -F '",
        cond.as_str(),
    );
    out = strutil::concat2(
        out.as_str(),
        "' 'select-window -t :dashboard ; send-keys \u{00a7}' 'send-keys \u{00a7}'\n",
    );
    out
}

/// The guard under which the navigation keys act: the window is not the
/// dashboard and the session is the orchestrator's own.
pub open spec fn nav_condition(session: Seq<char>) -> Seq<char> {
    "#{&&:#{!=:#{window_name},dashboard},#{==:#{session_name},"@ + session + "}}"@
}

/// Renders the binding guard for the given session name.
pub fn nav_condition_text(tmux_session: &str) -> (r: String)
    ensures
        r@ == nav_condition(tmux_session@),
{
    strutil::concat3(
        "#{&&:#{!=:#{window_name},dashboard},#{==:#{session_name},",
        tmux_session,
        "}}",
    )
}

/// The batch that removes the shared navigation bindings, again in one
/// round trip.
pub fn nav_cleanup_config() -> (r: String)
    ensures
        r@
            == "unbind-key -n User0\nunbind-key -n User1\nset-option -su user-keys[0]\nset-option -su user-keys[1]\nunbind-key d\nunbind-key o\n"@,
{
    "unbind-key -n User0\nunbind-key -n User1\nset-option -su user-keys[0]\nset-option -su user-keys[1]\nunbind-key d\nunbind-key o\n".to_owned()
}

/// What a read of the navigation lock file found: no file, contents that
/// name no process, or the recorded owner.
#[derive(Debug, PartialEq)]
pub enum NavLock {
    Absent,
    Corrupt,
    Owner(u64),
}

/// Classifies a lock-file read into the three cases the lock policy
/// distinguishes.
pub fn read_nav_lock(contents: Option<&str>) -> (r: NavLock)
    ensures
        match contents {
            None => r == NavLock::Absent,
            Some(s) => r == (if all_digits(s@) && s@.len() >= 1 && digits_val(s@) <= u64::MAX {
                NavLock::Owner(digits_val(s@) as u64)
            } else {
                NavLock::Corrupt
            }),
        },
{
    match contents {
        None => NavLock::Absent,
        Some(s) => match strutil::parse_u64(s) {
            Some(pid) => NavLock::Owner(pid),
            None => NavLock::Corrupt,
        },
    }
}

/// Whether this process may tear the shared bindings down: yes when no lock
/// exists or the lock names no process, and otherwise only when the
/// recorded owner is this process.
pub fn nav_cleanup_allowed(lock: &NavLock, my_pid: u64) -> (r: bool)
    ensures
        r == (match *lock {
            NavLock::Absent => true,
            NavLock::Corrupt => true,
            NavLock::Owner(p) => p == my_pid,
        }),
{
    match lock {
        NavLock::Absent => true,
        NavLock::Corrupt => true,
        NavLock::Owner(p) => *p == my_pid,
    }
}

/// Whether a recorded lock is stale and may be reclaimed: a missing file is
/// no lock at all, a corrupt one is stale, and an owned one is stale
/// exactly when its owner is no longer alive.
pub fn nav_lock_stale(lock: &NavLock, owner_alive: bool) -> (r: bool)
    ensures
        r == (match *lock {
            NavLock::Absent => false,
            NavLock::Corrupt => true,
            NavLock::Owner(_) => !owner_alive,
        }),
{
    match lock {
        NavLock::Absent => false,
        NavLock::Corrupt => true,
        NavLock::Owner(_) => !owner_alive,
    }
}

/// True when some line of the listing starts with `prefix` and contains
/// `needle`.
pub open spec fn some_line_has(lines: Seq<Seq<char>>, prefix: Seq<char>, needle: Seq<char>) -> bool {
    exists|i: int|
        0 <= i < lines.len() && starts_with_seq(#[trigger] lines[i], prefix) && contains_seq(
            lines[i],
            needle,
        )
}

/// Scans a listing for a line with the given prefix and content.
pub fn any_line_with(text: &str, prefix: &str, needle: &str) -> (r: bool)
    ensures
        r == some_line_has(split_seq(text@, '\n'), prefix@, needle@),
{
    let lines = strutil::split_char(text, '\n');
    let ghost ls = split_seq(text@, '\n');
    let mut i: usize = 0;
    while i < lines.len()
        invariant
            ls == split_seq(text@, '\n'),
            lines.deep_view() == ls,
            lines@.len() == ls.len(),
            0 <= i <= ls.len(),
            forall|j: int|
                0 <= j < i ==> !(starts_with_seq(#[trigger] ls[j], prefix@) && contains_seq(
                    ls[j],
                    needle@,
                )),
        decreases ls.len() - i,
    {
        proof {
            assert(lines@[i as int]@ == ls[i as int]);
        }
        if strutil::str_starts_with(lines[i].as_str(), prefix) && strutil::str_contains(
            lines[i].as_str(),
            needle,
        ) {
            proof {
                assert(starts_with_seq(ls[i as int], prefix@) && contains_seq(
                    ls[i as int],
                    needle@,
                ));
                assert(some_line_has(split_seq(text@, '\n'), prefix@, needle@)) by {
                    let w = i as int;
                    assert(0 <= w < ls.len() && starts_with_seq(ls[w], prefix@) && contains_seq(
                        ls[w],
                        needle@,
                    ));
                    assert(split_seq(text@, '\n') == ls);
                }
            }
            return true;
        }
        i = i + 1;
    }
    false
}

/// The deep check that the shared bindings are in place: both user keys
/// show the configured sequences, and both bindings are listed.
pub fn nav_bindings_ok(
    options_listing: &str,
    keys_listing: &str,
    dashboard_key: &str,
    overview_key: &str,
) -> (r: bool)
    ensures
        r == ({
            &&& some_line_has(split_seq(options_listing@, '\n'), "user-keys[0]"@, dashboard_key@)
            &&& some_line_has(split_seq(options_listing@, '\n'), "user-keys[1]"@, overview_key@)
            &&& contains_seq(keys_listing@, "User0"@)
            &&& contains_seq(keys_listing@, "User1"@)
        }),
{
    let uk0 = any_line_with(options_listing, "user-keys[0]", dashboard_key);
    let uk1 = any_line_with(options_listing, "user-keys[1]", overview_key);
    if !uk0 || !uk1 {
        return false;
    }
    let b0 = strutil::str_contains(keys_listing, "User0");
    let b1 = strutil::str_contains(keys_listing, "User1");
    b0 && b1
}

/// The first line of a listing.
pub fn first_line(text: &str) -> (r: String)
    ensures
        r@ == split_seq(text@, '\n')[0],
{
    let lines = strutil::split_char(text, '\n');
    proof {
        assert(split_seq(text@, '\n').len() > 0);
        assert(lines@[0]@ == lines.deep_view()[0]);
    }
    let first = &lines[0];
    first.clone()
}

/// What the multiplexer names look like as a resource list: creation adds
/// the name once, and a second creation of the same name adds nothing.
pub open spec fn ensure_entry(names: Seq<Seq<char>>, name: Seq<char>) -> Seq<Seq<char>> {
    if names.contains(name) {
        names
    } else {
        names.push(name)
    }
}

/// Creating a resource that already exists changes nothing: the ensure
/// operation is idempotent, so two calls produce one resource, not two.
pub proof fn lemma_ensure_idempotent(names: Seq<Seq<char>>, name: Seq<char>)
    ensures
        ensure_entry(ensure_entry(names, name), name) == ensure_entry(names, name),
{
    if !names.contains(name) {
        assert(names.push(name)[names.len() as int] == name);
        assert(names.push(name).contains(name));
    }
}

/// The ensure operation on a modelled resource list: a no-op when the name
/// is present, one appended entry when it is not.
pub fn ensure_name(names: &mut Vec<String>, name: &str) -> (created: bool)
    ensures
        final(names).deep_view() == ensure_entry(old(names).deep_view(), name@),
        created == !old(names).deep_view().contains(name@),
{
    let present = strutil::vec_contains_str(names, name);
    if present {
        false
    } else {
        names.push(name.to_owned());
        proof {
            assert(final(names).deep_view() =~= old(names).deep_view().push(name@));
        }
        true
    }
}


/// One pane of the multiplexer listing.
#[derive(Debug, Clone, PartialEq)]
pub struct PaneInfo {
    pub pane_id: String,
    pub pid: u32,
    pub command: String,
    pub window_name: String,
    pub current_path: String,
}

/// The process number a listing field denotes, or zero when it does not
/// denote one that fits.
pub open spec fn pid_of_field(s: Seq<char>) -> u32 {
    if all_digits(s) && s.len() >= 1 && digits_val(s) <= u32::MAX {
        digits_val(s) as u32
    } else {
        0
    }
}

/// The pane tuple one listing line denotes: five tab-separated fields, or
/// nothing for a short line.
pub open spec fn pane_of_line(l: Seq<char>) -> Option<(Seq<char>, u32, Seq<char>, Seq<char>, Seq<
    char,
>)> {
    let parts = split_seq(l, '\t');
    if parts.len() >= 5 {
        Some((parts[0], pid_of_field(parts[1]), parts[2], parts[3], parts[4]))
    } else {
        None
    }
}

/// The pane tuples of a listing, in order, short lines skipped.
pub open spec fn panes_of_lines(ls: Seq<Seq<char>>) -> Seq<(Seq<char>, u32, Seq<char>, Seq<char>, Seq<
    char,
>)>
    decreases ls.len(),
{
    if ls.len() == 0 {
        Seq::empty()
    } else {
        panes_of_lines(ls.drop_last()) + (match pane_of_line(ls.last()) {
            Some(p) => seq![p],
            None => Seq::empty(),
        })
    }
}

/// The tuples a parse yields.
pub open spec fn pane_tuples(v: Seq<PaneInfo>) -> Seq<(Seq<char>, u32, Seq<char>, Seq<char>, Seq<
    char,
>)> {
    v.map_values(
        |p: PaneInfo| (p.pane_id@, p.pid, p.command@, p.window_name@, p.current_path@),
    )
}

/// Parses a pane listing: one pane per line of five tab-separated fields.
pub fn parse_pane_list(text: &str) -> (r: Vec<PaneInfo>)
    ensures
        pane_tuples(r@) == panes_of_lines(split_seq(text@, '\n')),
{
    let lines = strutil::split_char(text, '\n');
    let ghost ls = split_seq(text@, '\n');
    let mut out: Vec<PaneInfo> = Vec::new();
    let mut i: usize = 0;
    proof {
        assert(ls.take(0).len() == 0);
        assert(pane_tuples(out@) =~= panes_of_lines(ls.take(0)));
    }
    while i < lines.len()
        invariant
            ls == split_seq(text@, '\n'),
            lines.deep_view() == ls,
            lines@.len() == ls.len(),
            0 <= i <= ls.len(),
            pane_tuples(out@) =~= panes_of_lines(ls.take(i as int)),
        decreases ls.len() - i,
    {
        proof {
            assert(ls.take(i + 1).drop_last() =~= ls.take(i as int));
            assert(ls.take(i + 1).last() == ls[i as int]);
            assert(lines@[i as int]@ == ls[i as int]);
        }
        let fields = strutil::split_char(lines[i].as_str(), '\t');
        proof {
            assert(fields.deep_view() == split_seq(ls[i as int], '\t'));
            assert(fields@.len() == fields.deep_view().len());
        }
        if fields.len() >= 5 {
            proof {
                assert(fields@[1]@ == split_seq(ls[i as int], '\t')[1]);
                if all_digits(fields@[1]@) {
                    strutil::lemma_digits_val_nonneg(fields@[1]@);
                }
            }
            let pid = match strutil::parse_u64(fields[1].as_str()) {
                Some(v) => {
                    if v <= 0xffff_ffff {
                        v as u32
                    } else {
                        0
                    }
                },
                None => 0,
            };
            proof {
                assert(fields@[1]@ == split_seq(ls[i as int], '\t')[1]);
                assert(pid == pid_of_field(split_seq(ls[i as int], '\t')[1]));
            }
            let info = PaneInfo {
                pane_id: fields[0].clone(),
                pid,
                command: fields[2].clone(),
                window_name: fields[3].clone(),
                current_path: fields[4].clone(),
            };
            let ghost pre = out@;
            out.push(info);
            proof {
                assert(pane_tuples(out@) =~= pane_tuples(pre).push(
                    (
                        split_seq(ls[i as int], '\t')[0],
                        pid_of_field(split_seq(ls[i as int], '\t')[1]),
                        split_seq(ls[i as int], '\t')[2],
                        split_seq(ls[i as int], '\t')[3],
                        split_seq(ls[i as int], '\t')[4],
                    ),
                ));
                assert(pane_tuples(out@) =~= panes_of_lines(ls.take(i + 1)));
            }
        } else {
            proof {
                assert(pane_tuples(out@) =~= panes_of_lines(ls.take(i + 1)));
            }
        }
        i = i + 1;
    }
    proof {
        assert(ls.take(ls.len() as int) =~= ls);
    }
    out
}

} // verus!
