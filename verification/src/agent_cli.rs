//! The agent command line: building the interactive and one-shot
//! invocations, and reading the structured output a one-shot run leaves
//! behind.

use vstd::prelude::*;
use crate::strutil;
use crate::strutil::{seq_join, push_char};
use vstd::string::StrSliceExecFns;
use vstd::string::StringExecFns;
use crate::json::{JsonVal, JVal, jv, jv_fields, obj_lookup};
use crate::codec::{get_str, get_bool, push_str_field, push_field};
use crate::domain::agent::AgentResult;

verus! {

/// The shell escape of one character inside single quotes: a quote closes
/// the quoting, emits an escaped quote, and reopens it.
pub open spec fn sq_unit(c: char) -> Seq<char> {
    if c == '\'' {
        seq!['\'', '\\', '\'', '\'']
    } else {
        seq![c]
    }
}

/// A string body with every single quote escaped for the shell.
pub open spec fn sq_escaped(s: Seq<char>) -> Seq<char>
    decreases s,
{
    if s.len() == 0 {
        Seq::empty()
    } else {
        sq_unit(s[0]) + sq_escaped(s.drop_first())
    }
}

proof fn lemma_sq_escaped_push(s: Seq<char>, c: char)
    ensures
        sq_escaped(s.push(c)) == sq_escaped(s) + sq_unit(c),
    decreases s,
{
    if s.len() == 0 {
        let p = s.push(c);
        assert(p[0] == c);
        assert(p.drop_first() =~= Seq::<char>::empty());
        assert(sq_escaped(p.drop_first()) == Seq::<char>::empty());
        assert(sq_escaped(p) =~= sq_unit(c));
        assert(sq_escaped(s) + sq_unit(c) =~= sq_unit(c));
    } else {
        lemma_sq_escaped_push(s.drop_first(), c);
        assert(s.push(c)[0] == s[0]);
        assert(s.push(c).drop_first() =~= s.drop_first().push(c));
        assert(sq_escaped(s) + sq_unit(c) =~= sq_unit(s[0]) + (sq_escaped(s.drop_first())
            + sq_unit(c)));
    }
}

/// Escapes every single quote in `s` for use inside a single-quoted shell
/// word.
pub fn shell_escape(s: &str) -> (r: String)
    ensures
        r@ == sq_escaped(s@),
{
    let n = s.unicode_len();
    let mut out = String::new();
    let mut i: usize = 0;
    proof {
        assert(s@.take(0) =~= Seq::<char>::empty());
    }
    while i < n
        invariant
            n == s@.len(),
            0 <= i <= n,
            out@ == sq_escaped(s@.take(i as int)),
        decreases n - i,
    {
        let c = s.get_char(i);
        proof {
            assert(s@.take(i + 1) =~= s@.take(i as int).push(s@[i as int]));
            lemma_sq_escaped_push(s@.take(i as int), s@[i as int]);
        }
        if c == '\'' {
            push_char(&mut out, '\'');
            push_char(&mut out, '\\');
            push_char(&mut out, '\'');
            push_char(&mut out, '\'');
            proof {
                assert(out@ =~= sq_escaped(s@.take(i + 1)));
            }
        } else {
            push_char(&mut out, c);
        }
        i = i + 1;
    }
    proof {
        assert(s@.take(n as int) =~= s@);
    }
    out
}

/// A value wrapped in single quotes with its quotes escaped.
pub open spec fn sq_quoted(s: Seq<char>) -> Seq<char> {
    seq!['\''] + sq_escaped(s) + seq!['\'']
}

/// A value wrapped in single quotes verbatim.
pub open spec fn sq_plain(s: Seq<char>) -> Seq<char> {
    seq!['\''] + s + seq!['\'']
}

/// The words of the interactive invocation, in order: the program, an
/// optional resumed session, an optional quoted system prompt, the tool
/// allow and deny lists when non-empty, an optional permission mode, and
/// any extra arguments.
pub open spec fn interactive_parts(
    system_prompt: Option<Seq<char>>,
    allowed: Seq<Seq<char>>,
    disallowed: Seq<Seq<char>>,
    permission_mode: Option<Seq<char>>,
    resume: Option<Seq<char>>,
    extra: Seq<Seq<char>>,
) -> Seq<Seq<char>> {
    seq!["agent"@] + (match resume {
        Some(rs) => seq!["--resume"@, rs],
        None => Seq::empty(),
    }) + (match system_prompt {
        Some(p) => seq!["--system-prompt"@, sq_quoted(p)],
        None => Seq::empty(),
    }) + (if allowed.len() > 0 {
        seq!["--allowedTools"@, sq_plain(seq_join(allowed, seq![',']))]
    } else {
        Seq::empty()
    }) + (if disallowed.len() > 0 {
        seq!["--disallowedTools"@, sq_plain(seq_join(disallowed, seq![',']))]
    } else {
        Seq::empty()
    }) + (match permission_mode {
        Some(p) => seq!["--permission-mode"@, p],
        None => Seq::empty(),
    }) + extra
}

/// Builds the shell line that starts an interactive agent in a pane.
pub fn interactive_command(
    system_prompt: Option<&str>,
    allowed_tools: &Vec<String>,
    disallowed_tools: &Vec<String>,
    permission_mode: Option<&str>,
    resume_session: Option<&str>,
    extra_args: &Vec<String>,
) -> (r: String)
    ensures
        r@ == seq_join(
            interactive_parts(
                match system_prompt {
                    Some(p) => Some(p@),
                    None => None,
                },
                allowed_tools.deep_view(),
                disallowed_tools.deep_view(),
                match permission_mode {
                    Some(p) => Some(p@),
                    None => None,
                },
                match resume_session {
                    Some(p) => Some(p@),
                    None => None,
                },
                extra_args.deep_view(),
            ),
            seq![' '],
        ),
{
    let ghost parts_spec = interactive_parts(
        match system_prompt {
            Some(p) => Some(p@),
            None => None,
        },
        allowed_tools.deep_view(),
        disallowed_tools.deep_view(),
        match permission_mode {
            Some(p) => Some(p@),
            None => None,
        },
        match resume_session {
            Some(p) => Some(p@),
            None => None,
        },
        extra_args.deep_view(),
    );
    let mut parts: Vec<String> = Vec::new();
    parts.push("agent".to_owned());
    match resume_session {
        Some(rs) => {
            parts.push("--resume".to_owned());
            parts.push(rs.to_owned());
        },
        None => (),
    }
    match system_prompt {
        Some(p) => {
            parts.push("--system-prompt".to_owned());
            let esc = shell_escape(p);
            let q = strutil::concat3("'", esc.as_str(), "'");
            proof {
                reveal_strlit("'");
                assert("'"@ =~= seq!['\'']);
                assert(q@ =~= sq_quoted(p@));
            }
            parts.push(q);
        },
        None => (),
    }
    if allowed_tools.len() > 0 {
        parts.push("--allowedTools".to_owned());
        let joined = strutil::join_with(allowed_tools, ",");
        let q = strutil::concat3("'", joined.as_str(), "'");
        proof {
            reveal_strlit("'");
            reveal_strlit(",");
            assert("'"@ =~= seq!['\'']);
            assert(","@ =~= seq![',']);
            assert(q@ =~= sq_plain(seq_join(allowed_tools.deep_view(), seq![','])));
        }
        parts.push(q);
    }
    if disallowed_tools.len() > 0 {
        parts.push("--disallowedTools".to_owned());
        let joined = strutil::join_with(disallowed_tools, ",");
        let q = strutil::concat3("'", joined.as_str(), "'");
        proof {
            reveal_strlit("'");
            reveal_strlit(",");
            assert("'"@ =~= seq!['\'']);
            assert(","@ =~= seq![',']);
            assert(q@ =~= sq_plain(seq_join(disallowed_tools.deep_view(), seq![','])));
        }
        parts.push(q);
    }
    match permission_mode {
        Some(p) => {
            parts.push("--permission-mode".to_owned());
            parts.push(p.to_owned());
        },
        None => (),
    }
    let ghost before_extra = parts.deep_view();
    let mut i: usize = 0;
    while i < extra_args.len()
        invariant
            0 <= i <= extra_args@.len(),
            extra_args.deep_view().len() == extra_args@.len(),
            parts.deep_view() =~= before_extra + extra_args.deep_view().take(i as int),
        decreases extra_args@.len() - i,
    {
        let a: String = extra_args[i].clone();
        let ghost pre = parts@;
        let ghost pre_dv = parts.deep_view();
        parts.push(a);
        proof {
            let dvp = parts.deep_view();
            let target = before_extra + extra_args.deep_view().take(i + 1);
            assert(extra_args.deep_view().take(i + 1) =~= extra_args.deep_view().take(
                i as int,
            ).push(extra_args.deep_view()[i as int]));
            assert(parts@ == pre.push(a));
            assert(dvp.len() == parts@.len());
            assert(pre_dv.len() == pre.len());
            assert(parts@.len() == pre.len() + 1);
            assert(pre_dv.len() == before_extra.len() + i);
            assert(target.len() == before_extra.len() + i + 1);
            assert(dvp.len() == target.len());
            assert forall|j: int| 0 <= j < dvp.len() implies dvp[j] == target[j] by {
                if j < dvp.len() - 1 {
                    assert(parts@[j] == pre[j]);
                    assert(dvp[j] == pre_dv[j]);
                } else {
                    assert(parts@[j] == a);
                    assert(dvp[j] == a@);
                }
            }
            assert(dvp =~= target);
        }
        i = i + 1;
    }
    proof {
        assert(extra_args.deep_view().take(extra_args@.len() as int) =~= extra_args.deep_view());
        assert(parts.deep_view() =~~= parts_spec);
        reveal_strlit(" ");
        assert(" "@ =~= seq![' ']);
    }
    strutil::join_with(&parts, " ")
}

/// The words handed to the one-shot agent process, in order.
pub open spec fn headless_parts(
    prompt: Seq<char>,
    system_prompt: Option<Seq<char>>,
    allowed: Seq<Seq<char>>,
    disallowed: Seq<Seq<char>>,
    permission_mode: Option<Seq<char>>,
    extra: Seq<Seq<char>>,
) -> Seq<Seq<char>> {
    seq!["-p"@, "--output-format"@, "json"@] + (match system_prompt {
        Some(p) => seq!["--system-prompt"@, p],
        None => Seq::empty(),
    }) + (if allowed.len() > 0 {
        seq!["--allowedTools"@, seq_join(allowed, seq![','])]
    } else {
        Seq::empty()
    }) + (if disallowed.len() > 0 {
        seq!["--disallowedTools"@, seq_join(disallowed, seq![','])]
    } else {
        Seq::empty()
    }) + (match permission_mode {
        Some(p) => seq!["--permission-mode"@, p],
        None => Seq::empty(),
    }) + extra + seq![prompt]
}

/// Builds the argument list for a one-shot agent run with captured JSON
/// output.
#[verifier::rlimit(100)]
pub fn headless_args(
    prompt: &str,
    system_prompt: Option<&str>,
    allowed_tools: &Vec<String>,
    disallowed_tools: &Vec<String>,
    permission_mode: Option<&str>,
    extra_args: &Vec<String>,
) -> (r: Vec<String>)
    ensures
        r.deep_view() == headless_parts(
            prompt@,
            match system_prompt {
                Some(p) => Some(p@),
                None => None,
            },
            allowed_tools.deep_view(),
            disallowed_tools.deep_view(),
            match permission_mode {
                Some(p) => Some(p@),
                None => None,
            },
            extra_args.deep_view(),
        ),
{
    let ghost parts_spec = headless_parts(
        prompt@,
        match system_prompt {
            Some(p) => Some(p@),
            None => None,
        },
        allowed_tools.deep_view(),
        disallowed_tools.deep_view(),
        match permission_mode {
            Some(p) => Some(p@),
            None => None,
        },
        extra_args.deep_view(),
    );
    let mut parts: Vec<String> = Vec::new();
    parts.push("-p".to_owned());
    parts.push("--output-format".to_owned());
    parts.push("json".to_owned());
    match system_prompt {
        Some(p) => {
            parts.push("--system-prompt".to_owned());
            parts.push(p.to_owned());
        },
        None => (),
    }
    if allowed_tools.len() > 0 {
        parts.push("--allowedTools".to_owned());
        parts.push(strutil::join_with(allowed_tools, ","));
    }
    if disallowed_tools.len() > 0 {
        parts.push("--disallowedTools".to_owned());
        parts.push(strutil::join_with(disallowed_tools, ","));
    }
    match permission_mode {
        Some(p) => {
            parts.push("--permission-mode".to_owned());
            parts.push(p.to_owned());
        },
        None => (),
    }
    let ghost before_extra = parts.deep_view();
    let mut i: usize = 0;
    while i < extra_args.len()
        invariant
            0 <= i <= extra_args@.len(),
            extra_args.deep_view().len() == extra_args@.len(),
            parts.deep_view() =~= before_extra + extra_args.deep_view().take(i as int),
        decreases extra_args@.len() - i,
    {
        let a: String = extra_args[i].clone();
        let ghost pre = parts@;
        let ghost pre_dv = parts.deep_view();
        parts.push(a);
        proof {
            let dvp = parts.deep_view();
            let target = before_extra + extra_args.deep_view().take(i + 1);
            assert(extra_args.deep_view().take(i + 1) =~= extra_args.deep_view().take(
                i as int,
            ).push(extra_args.deep_view()[i as int]));
            assert(parts@ == pre.push(a));
            assert(dvp.len() == parts@.len());
            assert(pre_dv.len() == pre.len());
            assert(parts@.len() == pre.len() + 1);
            assert(pre_dv.len() == before_extra.len() + i);
            assert(target.len() == before_extra.len() + i + 1);
            assert(dvp.len() == target.len());
            assert forall|j: int| 0 <= j < dvp.len() implies dvp[j] == target[j] by {
                if j < dvp.len() - 1 {
                    assert(parts@[j] == pre[j]);
                    assert(dvp[j] == pre_dv[j]);
                } else {
                    assert(parts@[j] == a);
                    assert(dvp[j] == a@);
                }
            }
            assert(dvp =~= target);
        }
        i = i + 1;
    }
    proof {
        assert(extra_args.deep_view().take(extra_args@.len() as int) =~= extra_args.deep_view());
    }
    let ghost pre = parts@;
    let ghost pre_dv = parts.deep_view();
    parts.push(prompt.to_owned());
    proof {
        let dvp = parts.deep_view();
        assert(parts@ == pre.push(parts@.last()));
        assert(dvp.len() == parts@.len());
        assert(pre_dv.len() == pre.len());
        assert forall|j: int| 0 <= j < dvp.len() implies dvp[j] == pre_dv.push(prompt@)[j] by {
            if j < dvp.len() - 1 {
                assert(parts@[j] == pre[j]);
                assert(dvp[j] == pre_dv[j]);
            } else {
                assert(dvp[j] == parts@[j]@);
            }
        }
        assert(dvp =~~= pre_dv.push(prompt@));
        assert(dvp =~~= before_extra + extra_args.deep_view() + seq![prompt@]);
        reveal_strlit(",");
        assert(","@ =~= seq![',']);
        let groups = seq!["-p"@, "--output-format"@, "json"@] + (match system_prompt {
            Some(p) => seq!["--system-prompt"@, p@],
            None => Seq::<Seq<char>>::empty(),
        }) + (if allowed_tools.deep_view().len() > 0 {
            seq!["--allowedTools"@, seq_join(allowed_tools.deep_view(), seq![','])]
        } else {
            Seq::<Seq<char>>::empty()
        }) + (if disallowed_tools.deep_view().len() > 0 {
            seq!["--disallowedTools"@, seq_join(disallowed_tools.deep_view(), seq![','])]
        } else {
            Seq::<Seq<char>>::empty()
        }) + (match permission_mode {
            Some(p) => seq!["--permission-mode"@, p@],
            None => Seq::<Seq<char>>::empty(),
        });
        assert(before_extra =~~= groups);
        assert(parts_spec =~~= groups + extra_args.deep_view() + seq![prompt@]);
        assert(parts.deep_view() =~~= parts_spec);
    }
    parts
}

/// The shell line a window runs for a one-shot session with an optional
/// quoted system prompt and the quoted task prompt.
pub fn headless_window_command(system_prompt: Option<&str>, task_prompt: &str) -> (r: String)
    ensures
        r@ == "agent -p --output-format json "@ + (match system_prompt {
            Some(p) => "--system-prompt '"@ + sq_escaped(p@) + "'"@,
            None => Seq::<char>::empty(),
        }) + " '"@ + sq_escaped(task_prompt@) + "'"@,
{
    let sp_part = match system_prompt {
        Some(p) => {
            let esc = shell_escape(p);
            strutil::concat3("--system-prompt '", esc.as_str(), "'")
        },
        None => String::new(),
    };
    let esc_prompt = shell_escape(task_prompt);
    let head = strutil::concat2("agent -p --output-format json ", sp_part.as_str());
    let mid = strutil::concat3(head.as_str(), " '", esc_prompt.as_str());
    let r = strutil::concat2(mid.as_str(), "'");
    proof {
        assert(r@ =~= "agent -p --output-format json "@ + sp_part@ + " '"@ + sq_escaped(
            task_prompt@,
        ) + "'"@);
    }
    r
}

/// The parsed JSON output of a one-shot agent run.
#[derive(Debug, Clone, PartialEq)]
pub struct AgentCliOutput {
    pub output_type: String,
    pub subtype: String,
    pub is_error: bool,
    pub duration_ms: u64,
    pub num_turns: u32,
    pub result: String,
    pub session_id: String,
}

/// A count field defaulting to zero when missing.
pub open spec fn u64_field_or_zero_matches(l: Option<JVal>, n: u64) -> bool {
    match l {
        None => n == 0,
        Some(v) => v == JVal::UNum(n),
    }
}

pub open spec fn u64_field_or_zero_ok(l: Option<JVal>) -> bool {
    match l {
        None => true,
        Some(v) => v is UNum,
    }
}

/// A string field defaulting to empty when missing.
pub open spec fn str_field_or_empty_matches(l: Option<JVal>, s: Seq<char>) -> bool {
    match l {
        None => s.len() == 0,
        Some(v) => v == JVal::Str(s),
    }
}

pub open spec fn str_field_or_empty_ok(l: Option<JVal>) -> bool {
    match l {
        None => true,
        Some(v) => v is Str,
    }
}

/// The output artifact of a one-shot run.
pub open spec fn agent_output_matches(x: AgentCliOutput, v: JVal) -> bool {
    v matches JVal::Obj(fs) && {
        &&& obj_lookup(fs, "type"@) == Some(JVal::Str(x.output_type@))
        &&& obj_lookup(fs, "subtype"@) == Some(JVal::Str(x.subtype@))
        &&& obj_lookup(fs, "is_error"@) == Some(JVal::Bool(x.is_error))
        &&& u64_field_or_zero_matches(obj_lookup(fs, "duration_ms"@), x.duration_ms)
        &&& u64_field_or_zero_matches(obj_lookup(fs, "num_turns"@), x.num_turns as u64)
        &&& str_field_or_empty_matches(obj_lookup(fs, "result"@), x.result@)
        &&& str_field_or_empty_matches(obj_lookup(fs, "session_id"@), x.session_id@)
    }
}

pub open spec fn agent_output_decodable(v: JVal) -> bool {
    v matches JVal::Obj(fs) && {
        &&& obj_lookup(fs, "type"@) matches Some(JVal::Str(_))
        &&& obj_lookup(fs, "subtype"@) matches Some(JVal::Str(_))
        &&& obj_lookup(fs, "is_error"@) matches Some(JVal::Bool(_))
        &&& u64_field_or_zero_ok(obj_lookup(fs, "duration_ms"@))
        &&& (match obj_lookup(fs, "num_turns"@) {
            None => true,
            Some(v2) => v2 matches JVal::UNum(n) && n <= u32::MAX,
        })
        &&& str_field_or_empty_ok(obj_lookup(fs, "result"@))
        &&& str_field_or_empty_ok(obj_lookup(fs, "session_id"@))
    }
}

/// Decodes a one-shot output artifact; the counts default to zero and the
/// texts to empty when the document lacks them.
pub fn agent_output_from_json(v: &JsonVal) -> (r: Option<AgentCliOutput>)
    ensures
        (r is Some) == agent_output_decodable(jv(*v)),
        r matches Some(x) ==> agent_output_matches(x, jv(*v)),
{
    match v {
        JsonVal::Obj(fs) => {
            let output_type = match get_str(fs, "type") {
                Some(x) => x,
                None => {
                    return None;
                },
            };
            let subtype = match get_str(fs, "subtype") {
                Some(x) => x,
                None => {
                    return None;
                },
            };
            let is_error = match get_bool(fs, "is_error") {
                Some(x) => x,
                None => {
                    return None;
                },
            };
            let duration_ms = match crate::json::obj_get(fs, "duration_ms") {
                None => 0,
                Some(dv) => match dv {
                    JsonVal::UNum(n) => *n,
                    _ => {
                        proof {
                            crate::codec::lemma_jv_shape(*dv);
                        }
                        return None;
                    },
                },
            };
            let num_turns = match crate::json::obj_get(fs, "num_turns") {
                None => 0,
                Some(nv) => match nv {
                    JsonVal::UNum(n) => {
                        if *n <= 0xffff_ffff {
                            (*n) as u32
                        } else {
                            return None;
                        }
                    },
                    _ => {
                        proof {
                            crate::codec::lemma_jv_shape(*nv);
                        }
                        return None;
                    },
                },
            };
            let result = match crate::json::obj_get(fs, "result") {
                None => String::new(),
                Some(rv) => match rv {
                    JsonVal::Str(s) => s.clone(),
                    _ => {
                        proof {
                            crate::codec::lemma_jv_shape(*rv);
                        }
                        return None;
                    },
                },
            };
            let session_id = match crate::json::obj_get(fs, "session_id") {
                None => String::new(),
                Some(sv) => match sv {
                    JsonVal::Str(s) => s.clone(),
                    _ => {
                        proof {
                            crate::codec::lemma_jv_shape(*sv);
                        }
                        return None;
                    },
                },
            };
            Some(
                AgentCliOutput {
                    output_type,
                    subtype,
                    is_error,
                    duration_ms,
                    num_turns,
                    result,
                    session_id,
                },
            )
        },
        _ => {
            proof {
                crate::codec::lemma_jv_shape(*v);
            }
            None
        },
    }
}

/// Encodes the output artifact the spawning task writes; the decoder above
/// accepts it.
pub fn agent_output_to_json(x: &AgentCliOutput) -> (r: JsonVal)
    ensures
        agent_output_matches(*x, jv(r)),
        agent_output_decodable(jv(r)),
{
    let mut fs: Vec<crate::json::JsonField> = Vec::new();
    push_str_field(&mut fs, "type", x.output_type.as_str());
    push_str_field(&mut fs, "subtype", x.subtype.as_str());
    push_field(&mut fs, "is_error", JsonVal::Bool(x.is_error));
    push_field(&mut fs, "duration_ms", JsonVal::UNum(x.duration_ms));
    push_field(&mut fs, "num_turns", JsonVal::UNum(x.num_turns as u64));
    push_str_field(&mut fs, "result", x.result.as_str());
    push_str_field(&mut fs, "session_id", x.session_id.as_str());
    let r = JsonVal::Obj(fs);
    proof {
        let jfs = jv_fields(r->Obj_0@);
        reveal_strlit("type");
        reveal_strlit("subtype");
        reveal_strlit("is_error");
        reveal_strlit("duration_ms");
        reveal_strlit("num_turns");
        reveal_strlit("result");
        reveal_strlit("session_id");
        assert("type"@.len() == 4);
        assert("subtype"@.len() == 7);
        assert("is_error"@.len() == 8);
        assert("duration_ms"@.len() == 11);
        assert("num_turns"@.len() == 9);
        assert("result"@.len() == 6);
        assert("session_id"@.len() == 10);
        assert(r->Obj_0@.len() == 7);
        crate::json::lemma_jv_fields_index(r->Obj_0@, 0);
        crate::json::lemma_jv_fields_index(r->Obj_0@, 1);
        crate::json::lemma_jv_fields_index(r->Obj_0@, 2);
        crate::json::lemma_jv_fields_index(r->Obj_0@, 3);
        crate::json::lemma_jv_fields_index(r->Obj_0@, 4);
        crate::json::lemma_jv_fields_index(r->Obj_0@, 5);
        crate::json::lemma_jv_fields_index(r->Obj_0@, 6);
        crate::json::lemma_obj_lookup_at(jfs, "type"@, 0);
        crate::json::lemma_obj_lookup_at(jfs, "subtype"@, 1);
        crate::json::lemma_obj_lookup_at(jfs, "is_error"@, 2);
        crate::json::lemma_obj_lookup_at(jfs, "duration_ms"@, 3);
        crate::json::lemma_obj_lookup_at(jfs, "num_turns"@, 4);
        crate::json::lemma_obj_lookup_at(jfs, "result"@, 5);
        crate::json::lemma_obj_lookup_at(jfs, "session_id"@, 6);
    }
    r
}

/// Reads a one-shot output artifact from its text: valid JSON fitting the
/// artifact schema, or nothing.
pub fn agent_output_from_text(text: &str) -> (r: Option<AgentCliOutput>)
    ensures
        match crate::json::json_of(text@) {
            None => r is None,
            Some(doc) => {
                &&& (r is Some) == agent_output_decodable(doc)
                &&& (match r {
                    Some(x) => agent_output_matches(x, doc),
                    None => true,
                })
            },
        },
{
    match crate::json::parse_json(text) {
        Some(doc) => agent_output_from_json(&doc),
        None => None,
    }
}

/// A summary clipped to `max` characters, with a trailing ellipsis when
/// anything was cut.
pub open spec fn summary_of(text: Seq<char>, max: int) -> Seq<char> {
    if text.len() <= max {
        text
    } else {
        text.take(max) + "..."@
    }
}

/// Clips a result text to at most `max` characters plus an ellipsis.
pub fn truncate_summary(text: &str, max: usize) -> (r: String)
    ensures
        r@ == summary_of(text@, max as int),
{
    let n = text.unicode_len();
    if n <= max {
        text.to_owned()
    } else {
        let head = text.substring_char(0, max);
        strutil::concat2(head, "...")
    }
}

/// Turns a one-shot output artifact into the agent's recorded result: a
/// success is a non-error run whose subtype says so, the summary is the
/// clipped result text, and the raw text is kept whole.
pub fn to_agent_result(output: &AgentCliOutput) -> (r: AgentResult)
    ensures
        r.success == (!output.is_error && output.subtype@ == "success"@),
        r.summary@ == summary_of(output.result@, 500),
        r.duration_ms == output.duration_ms,
        r.session_id@ == output.session_id@,
        r.raw_result matches Some(t) && t@ == output.result@,
{
    let success = !output.is_error && strutil::str_eq(output.subtype.as_str(), "success");
    AgentResult {
        success,
        summary: truncate_summary(output.result.as_str(), 500),
        duration_ms: output.duration_ms,
        session_id: output.session_id.clone(),
        raw_result: Some(output.result.clone()),
    }
}

} // verus!
