//! Encoding and decoding between the domain types and the JSON document
//! model. Decoders accept the persisted schema, defaulting the fields that
//! older documents lack; encoders produce documents the decoders accept.

use vstd::prelude::*;
use crate::json::{JsonVal, JsonField, JVal, jv, jv_list, jv_fields, obj_lookup, obj_get,
    lemma_jv_list_index, lemma_jv_list_len};
use crate::domain::agent::{Agent, AgentMode, AgentStatus, AgentResult};
use crate::domain::session::{Session, SessionStatus, SessionMetadata, RepoWorktree};
use crate::domain::workspace::{Workspace, WorkspaceKind, RepoInfo, WorkspaceState};
use crate::strutil;
use crate::ids;

verus! {

/// The string bound to `key`, when there is one.
pub fn get_str(fields: &Vec<JsonField>, key: &str) -> (r: Option<String>)
    ensures
        (r is Some) == (obj_lookup(jv_fields(fields@), key@) matches Some(JVal::Str(_))),
        r matches Some(s) ==> obj_lookup(jv_fields(fields@), key@) == Some(JVal::Str(s@)),
{
    match obj_get(fields, key) {
        Some(JsonVal::Str(s)) => Some(s.clone()),
        _ => None,
    }
}

/// The boolean bound to `key`, when there is one.
pub fn get_bool(fields: &Vec<JsonField>, key: &str) -> (r: Option<bool>)
    ensures
        (r is Some) == (obj_lookup(jv_fields(fields@), key@) matches Some(JVal::Bool(_))),
        r matches Some(b) ==> obj_lookup(jv_fields(fields@), key@) == Some(JVal::Bool(b)),
{
    match obj_get(fields, key) {
        Some(JsonVal::Bool(b)) => Some(*b),
        _ => None,
    }
}

/// The unsigned number bound to `key`, when there is one.
pub fn get_u64(fields: &Vec<JsonField>, key: &str) -> (r: Option<u64>)
    ensures
        (r is Some) == (obj_lookup(jv_fields(fields@), key@) matches Some(JVal::UNum(_))),
        r matches Some(n) ==> obj_lookup(jv_fields(fields@), key@) == Some(JVal::UNum(n)),
{
    match obj_get(fields, key) {
        Some(JsonVal::UNum(n)) => Some(*n),
        _ => None,
    }
}

/// A string or an explicit null bound to `key`; `None` when the key is
/// missing or holds anything else.
pub fn get_nullable_str(fields: &Vec<JsonField>, key: &str) -> (r: Option<Option<String>>)
    ensures
        (r is Some) == (obj_lookup(jv_fields(fields@), key@) matches Some(JVal::Null)
            || obj_lookup(jv_fields(fields@), key@) matches Some(JVal::Str(_))),
        r matches Some(o) ==> (match o {
            Some(s) => obj_lookup(jv_fields(fields@), key@) == Some(JVal::Str(s@)),
            None => obj_lookup(jv_fields(fields@), key@) == Some(JVal::Null),
        }),
{
    match obj_get(fields, key) {
        Some(JsonVal::Null) => Some(None),
        Some(JsonVal::Str(s)) => Some(Some(s.clone())),
        _ => None,
    }
}

/// An unsigned number or an explicit null bound to `key`.
pub fn get_nullable_u64(fields: &Vec<JsonField>, key: &str) -> (r: Option<Option<u64>>)
    ensures
        (r is Some) == (obj_lookup(jv_fields(fields@), key@) matches Some(JVal::Null)
            || obj_lookup(jv_fields(fields@), key@) matches Some(JVal::UNum(_))),
        r matches Some(o) ==> (match o {
            Some(n) => obj_lookup(jv_fields(fields@), key@) == Some(JVal::UNum(n)),
            None => obj_lookup(jv_fields(fields@), key@) == Some(JVal::Null),
        }),
{
    match obj_get(fields, key) {
        Some(JsonVal::Null) => Some(None),
        Some(JsonVal::UNum(n)) => Some(Some(*n)),
        _ => None,
    }
}

/// The array bound to `key`, when there is one.
pub fn get_arr<'a>(fields: &'a Vec<JsonField>, key: &str) -> (r: Option<&'a Vec<JsonVal>>)
    ensures
        (r is Some) == (obj_lookup(jv_fields(fields@), key@) matches Some(JVal::Arr(_))),
        r matches Some(a) ==> obj_lookup(jv_fields(fields@), key@) == Some(JVal::Arr(jv_list(a@))),
{
    match obj_get(fields, key) {
        Some(v) => match v {
            JsonVal::Arr(items) => Some(items),
            _ => None,
        },
        _ => None,
    }
}

/// The object bound to `key`, when there is one.
pub fn get_obj<'a>(fields: &'a Vec<JsonField>, key: &str) -> (r: Option<&'a Vec<JsonField>>)
    ensures
        (r is Some) == (obj_lookup(jv_fields(fields@), key@) matches Some(JVal::Obj(_))),
        r matches Some(a) ==> obj_lookup(jv_fields(fields@), key@) == Some(
            JVal::Obj(jv_fields(a@)),
        ),
{
    match obj_get(fields, key) {
        Some(v) => match v {
            JsonVal::Obj(inner) => Some(inner),
            _ => None,
        },
        _ => None,
    }
}

/// A value's shape has the same variant as the value.
pub proof fn lemma_jv_shape(v: JsonVal)
    ensures
        (jv(v) is Str) == (v is Str),
        (jv(v) is Arr) == (v is Arr),
        (jv(v) is Obj) == (v is Obj),
        (jv(v) is Null) == (v is Null),
        (jv(v) is Bool) == (v is Bool),
        (jv(v) is UNum) == (v is UNum),
        (jv(v) is INum) == (v is INum),
{
    match v {
        JsonVal::Null => {},
        JsonVal::Bool(_) => {},
        JsonVal::UNum(_) => {},
        JsonVal::INum(_) => {},
        JsonVal::Str(_) => {},
        JsonVal::Arr(_) => {},
        JsonVal::Obj(_) => {},
    }
}

/// The shape of a one-field object list.
proof fn lemma_jv_fields_one(s: Seq<JsonField>)
    requires
        s.len() == 1,
    ensures
        jv_fields(s) =~~= seq![(s[0].key@, jv(s[0].val))],
{
    assert(s.drop_first().len() == 0);
    assert(jv_fields(s.drop_first()) =~= Seq::<(Seq<char>, JVal)>::empty());
    assert(jv_fields(s) =~~= seq![(s[0].key@, jv(s[0].val))]);
}

/// The document form of an agent mode: its variant name.
pub open spec fn mode_jval(m: AgentMode) -> JVal {
    match m {
        AgentMode::Headless => JVal::Str("Headless"@),
        AgentMode::Interactive => JVal::Str("Interactive"@),
        AgentMode::Shell => JVal::Str("Shell"@),
    }
}

/// True when `v` is the document form of some agent mode.
pub open spec fn mode_decodable(v: JVal) -> bool {
    v == JVal::Str("Headless"@) || v == JVal::Str("Interactive"@) || v == JVal::Str("Shell"@)
}

pub fn mode_from_json(v: &JsonVal) -> (r: Option<AgentMode>)
    ensures
        (r is Some) == mode_decodable(jv(*v)),
        r matches Some(m) ==> jv(*v) == mode_jval(m),
{
    match v {
        JsonVal::Str(s) => {
            if strutil::str_eq(s.as_str(), "Headless") {
                Some(AgentMode::Headless)
            } else if strutil::str_eq(s.as_str(), "Interactive") {
                Some(AgentMode::Interactive)
            } else if strutil::str_eq(s.as_str(), "Shell") {
                Some(AgentMode::Shell)
            } else {
                None
            }
        },
        _ => None,
    }
}

pub fn mode_to_json(m: &AgentMode) -> (r: JsonVal)
    ensures
        jv(r) == mode_jval(*m),
        mode_decodable(jv(r)),
{
    match m {
        AgentMode::Headless => JsonVal::Str("Headless".to_owned()),
        AgentMode::Interactive => JsonVal::Str("Interactive".to_owned()),
        AgentMode::Shell => JsonVal::Str("Shell".to_owned()),
    }
}

/// The document form of a workspace kind: its variant name.
pub open spec fn kind_jval(k: WorkspaceKind) -> JVal {
    match k {
        WorkspaceKind::SingleRepo => JVal::Str("SingleRepo"@),
        WorkspaceKind::MultiRepo => JVal::Str("MultiRepo"@),
    }
}

pub open spec fn kind_decodable(v: JVal) -> bool {
    v == JVal::Str("SingleRepo"@) || v == JVal::Str("MultiRepo"@)
}

pub fn kind_from_json(v: &JsonVal) -> (r: Option<WorkspaceKind>)
    ensures
        (r is Some) == kind_decodable(jv(*v)),
        r matches Some(k) ==> jv(*v) == kind_jval(k),
{
    match v {
        JsonVal::Str(s) => {
            if strutil::str_eq(s.as_str(), "SingleRepo") {
                Some(WorkspaceKind::SingleRepo)
            } else if strutil::str_eq(s.as_str(), "MultiRepo") {
                Some(WorkspaceKind::MultiRepo)
            } else {
                None
            }
        },
        _ => None,
    }
}

pub fn kind_to_json(k: &WorkspaceKind) -> (r: JsonVal)
    ensures
        jv(r) == kind_jval(*k),
        kind_decodable(jv(r)),
{
    match k {
        WorkspaceKind::SingleRepo => JsonVal::Str("SingleRepo".to_owned()),
        WorkspaceKind::MultiRepo => JsonVal::Str("MultiRepo".to_owned()),
    }
}

/// The document form of a session status: the variant name, or a one-field
/// object carrying the failure reason.
pub open spec fn session_status_jval(st: SessionStatus) -> JVal {
    match st {
        SessionStatus::Creating => JVal::Str("Creating"@),
        SessionStatus::Active => JVal::Str("Active"@),
        SessionStatus::Paused => JVal::Str("Paused"@),
        SessionStatus::Completed => JVal::Str("Completed"@),
        SessionStatus::Failed(m) => JVal::Obj(seq![("Failed"@, JVal::Str(m@))]),
        SessionStatus::Archived => JVal::Str("Archived"@),
    }
}

pub open spec fn session_status_decodable(v: JVal) -> bool {
    ||| v == JVal::Str("Creating"@)
    ||| v == JVal::Str("Active"@)
    ||| v == JVal::Str("Paused"@)
    ||| v == JVal::Str("Completed"@)
    ||| v == JVal::Str("Archived"@)
    ||| (v matches JVal::Obj(fs) && fs.len() == 1 && fs[0].0 == "Failed"@ && fs[0].1 is Str)
}

pub fn session_status_from_json(v: &JsonVal) -> (r: Option<SessionStatus>)
    ensures
        (r is Some) == session_status_decodable(jv(*v)),
        r matches Some(st) ==> jv(*v) == session_status_jval(st),
{
    match v {
        JsonVal::Str(s) => {
            if strutil::str_eq(s.as_str(), "Creating") {
                Some(SessionStatus::Creating)
            } else if strutil::str_eq(s.as_str(), "Active") {
                Some(SessionStatus::Active)
            } else if strutil::str_eq(s.as_str(), "Paused") {
                Some(SessionStatus::Paused)
            } else if strutil::str_eq(s.as_str(), "Completed") {
                Some(SessionStatus::Completed)
            } else if strutil::str_eq(s.as_str(), "Archived") {
                Some(SessionStatus::Archived)
            } else {
                None
            }
        },
        JsonVal::Obj(fs) => {
            proof {
                crate::json::lemma_jv_fields_len(fs@);
            }
            if fs.len() == 1 {
                proof {
                    lemma_jv_fields_one(fs@);
                }
                if strutil::str_eq(fs[0].key.as_str(), "Failed") {
                    match &fs[0].val {
                        JsonVal::Str(m) => {
                            let st = SessionStatus::Failed(m.clone());
                            proof {
                                assert(jv(fs@[0].val) == JVal::Str(m@));
                                assert(jv_fields(fs@) =~~= seq![("Failed"@, JVal::Str(m@))]);
                            }
                            Some(st)
                        },
                        _ => None,
                    }
                } else {
                    None
                }
            } else {
                None
            }
        },
        _ => None,
    }
}

pub fn session_status_to_json(st: &SessionStatus) -> (r: JsonVal)
    ensures
        jv(r) == session_status_jval(*st),
        session_status_decodable(jv(r)),
{
    match st {
        SessionStatus::Creating => JsonVal::Str("Creating".to_owned()),
        SessionStatus::Active => JsonVal::Str("Active".to_owned()),
        SessionStatus::Paused => JsonVal::Str("Paused".to_owned()),
        SessionStatus::Completed => JsonVal::Str("Completed".to_owned()),
        SessionStatus::Failed(m) => {
            let mut fields: Vec<JsonField> = Vec::new();
            fields.push(JsonField { key: "Failed".to_owned(), val: JsonVal::Str(m.clone()) });
            let r = JsonVal::Obj(fields);
            proof {
                lemma_jv_fields_one(fields@);
                assert(jv_fields(fields@) =~~= seq![("Failed"@, JVal::Str(m@))]);
            }
            r
        },
        SessionStatus::Archived => JsonVal::Str("Archived".to_owned()),
    }
}

/// The document form of an agent status.
pub open spec fn agent_status_jval(st: AgentStatus) -> JVal {
    match st {
        AgentStatus::Queued => JVal::Str("Queued"@),
        AgentStatus::Running => JVal::Str("Running"@),
        AgentStatus::Completed => JVal::Str("Completed"@),
        AgentStatus::Failed(m) => JVal::Obj(seq![("Failed"@, JVal::Str(m@))]),
        AgentStatus::Ingested => JVal::Str("Ingested"@),
    }
}

pub open spec fn agent_status_decodable(v: JVal) -> bool {
    ||| v == JVal::Str("Queued"@)
    ||| v == JVal::Str("Running"@)
    ||| v == JVal::Str("Completed"@)
    ||| v == JVal::Str("Ingested"@)
    ||| (v matches JVal::Obj(fs) && fs.len() == 1 && fs[0].0 == "Failed"@ && fs[0].1 is Str)
}

pub fn agent_status_from_json(v: &JsonVal) -> (r: Option<AgentStatus>)
    ensures
        (r is Some) == agent_status_decodable(jv(*v)),
        r matches Some(st) ==> jv(*v) == agent_status_jval(st),
{
    match v {
        JsonVal::Str(s) => {
            if strutil::str_eq(s.as_str(), "Queued") {
                Some(AgentStatus::Queued)
            } else if strutil::str_eq(s.as_str(), "Running") {
                Some(AgentStatus::Running)
            } else if strutil::str_eq(s.as_str(), "Completed") {
                Some(AgentStatus::Completed)
            } else if strutil::str_eq(s.as_str(), "Ingested") {
                Some(AgentStatus::Ingested)
            } else {
                None
            }
        },
        JsonVal::Obj(fs) => {
            proof {
                crate::json::lemma_jv_fields_len(fs@);
            }
            if fs.len() == 1 {
                proof {
                    lemma_jv_fields_one(fs@);
                }
                if strutil::str_eq(fs[0].key.as_str(), "Failed") {
                    match &fs[0].val {
                        JsonVal::Str(m) => {
                            let st = AgentStatus::Failed(m.clone());
                            proof {
                                assert(jv(fs@[0].val) == JVal::Str(m@));
                                assert(jv_fields(fs@) =~~= seq![("Failed"@, JVal::Str(m@))]);
                            }
                            Some(st)
                        },
                        _ => None,
                    }
                } else {
                    None
                }
            } else {
                None
            }
        },
        _ => None,
    }
}

pub fn agent_status_to_json(st: &AgentStatus) -> (r: JsonVal)
    ensures
        jv(r) == agent_status_jval(*st),
        agent_status_decodable(jv(r)),
{
    match st {
        AgentStatus::Queued => JsonVal::Str("Queued".to_owned()),
        AgentStatus::Running => JsonVal::Str("Running".to_owned()),
        AgentStatus::Completed => JsonVal::Str("Completed".to_owned()),
        AgentStatus::Failed(m) => {
            let mut fields: Vec<JsonField> = Vec::new();
            fields.push(JsonField { key: "Failed".to_owned(), val: JsonVal::Str(m.clone()) });
            let r = JsonVal::Obj(fields);
            proof {
                lemma_jv_fields_one(fields@);
                assert(jv_fields(fields@) =~~= seq![("Failed"@, JVal::Str(m@))]);
            }
            r
        },
        AgentStatus::Ingested => JsonVal::Str("Ingested".to_owned()),
    }
}


/// A lookup holding a string.
pub open spec fn str_field(l: Option<JVal>, t: Seq<char>) -> bool {
    l == Some(JVal::Str(t))
}

/// A lookup holding a string or null, matching an optional string.
pub open spec fn nullable_str_matches(l: Option<JVal>, o: Option<String>) -> bool {
    match o {
        Some(s) => l == Some(JVal::Str(s@)),
        None => l == Some(JVal::Null),
    }
}

pub open spec fn nullable_str_ok(l: Option<JVal>) -> bool {
    l matches Some(JVal::Null) || l matches Some(JVal::Str(_))
}

/// A lookup holding a number or null, matching an optional number.
pub open spec fn nullable_u64_matches(l: Option<JVal>, o: Option<u64>) -> bool {
    match o {
        Some(n) => l == Some(JVal::UNum(n)),
        None => l == Some(JVal::Null),
    }
}

pub open spec fn nullable_u64_ok(l: Option<JVal>) -> bool {
    l matches Some(JVal::Null) || l matches Some(JVal::UNum(_))
}

pub open spec fn nullable_u32_matches(l: Option<JVal>, o: Option<u32>) -> bool {
    match o {
        Some(n) => l == Some(JVal::UNum(n as u64)),
        None => l == Some(JVal::Null),
    }
}

pub open spec fn nullable_u32_ok(l: Option<JVal>) -> bool {
    l matches Some(JVal::Null) || (l matches Some(JVal::UNum(n)) && n <= u32::MAX)
}

/// A lookup holding the text of an identifier.
pub open spec fn uuid_field_matches(l: Option<JVal>, id: u128) -> bool {
    l matches Some(JVal::Str(t)) && ids::uuid_of_chars(t) == Some(id)
}

pub open spec fn uuid_field_ok(l: Option<JVal>) -> bool {
    l matches Some(JVal::Str(t)) && ids::uuid_of_chars(t) is Some
}

/// A lookup holding the text of an identifier, or null.
pub open spec fn nullable_uuid_matches(l: Option<JVal>, o: Option<u128>) -> bool {
    match o {
        Some(id) => uuid_field_matches(l, id),
        None => l == Some(JVal::Null),
    }
}

pub open spec fn nullable_uuid_ok(l: Option<JVal>) -> bool {
    l matches Some(JVal::Null) || uuid_field_ok(l)
}

/// Reads a required identifier field.
pub fn get_uuid(fields: &Vec<JsonField>, key: &str) -> (r: Option<u128>)
    ensures
        (r is Some) == uuid_field_ok(obj_lookup(jv_fields(fields@), key@)),
        r matches Some(id) ==> uuid_field_matches(obj_lookup(jv_fields(fields@), key@), id),
{
    match get_str(fields, key) {
        Some(t) => ids::parse_uuid(t.as_str()),
        None => None,
    }
}

/// Reads an identifier field that may be null.
pub fn get_nullable_uuid(fields: &Vec<JsonField>, key: &str) -> (r: Option<Option<u128>>)
    ensures
        (r is Some) == nullable_uuid_ok(obj_lookup(jv_fields(fields@), key@)),
        r matches Some(o) ==> nullable_uuid_matches(obj_lookup(jv_fields(fields@), key@), o),
{
    match get_nullable_str(fields, key) {
        Some(Some(t)) => match ids::parse_uuid(t.as_str()) {
            Some(id) => Some(Some(id)),
            None => None,
        },
        Some(None) => Some(None),
        None => None,
    }
}

/// Reads a count field that may be null and must fit in 32 bits.
pub fn get_nullable_u32(fields: &Vec<JsonField>, key: &str) -> (r: Option<Option<u32>>)
    ensures
        (r is Some) == nullable_u32_ok(obj_lookup(jv_fields(fields@), key@)),
        r matches Some(o) ==> nullable_u32_matches(obj_lookup(jv_fields(fields@), key@), o),
{
    match get_nullable_u64(fields, key) {
        Some(Some(n)) => {
            if n <= 0xffff_ffff {
                Some(Some(n as u32))
            } else {
                None
            }
        },
        Some(None) => Some(None),
        None => None,
    }
}

/// Appends a string field.
pub fn push_str_field(fields: &mut Vec<JsonField>, key: &str, val: &str)
    ensures
        final(fields)@.len() == old(fields)@.len() + 1,
        final(fields)@.last().key@ == key@,
        jv(final(fields)@.last().val) == JVal::Str(val@),
        forall|j: int| 0 <= j < old(fields)@.len() ==> final(fields)@[j] == old(fields)@[j],
{
    fields.push(JsonField { key: key.to_owned(), val: JsonVal::Str(val.to_owned()) });
}

/// Appends a field holding a string or null.
pub fn push_nullable_str_field(fields: &mut Vec<JsonField>, key: &str, val: &Option<String>)
    ensures
        final(fields)@.len() == old(fields)@.len() + 1,
        final(fields)@.last().key@ == key@,
        (match val {
            Some(s) => jv(final(fields)@.last().val) == JVal::Str(s@),
            None => jv(final(fields)@.last().val) == JVal::Null,
        }),
        forall|j: int| 0 <= j < old(fields)@.len() ==> final(fields)@[j] == old(fields)@[j],
{
    match val {
        Some(s) => fields.push(
            JsonField { key: key.to_owned(), val: JsonVal::Str(s.clone()) },
        ),
        None => fields.push(JsonField { key: key.to_owned(), val: JsonVal::Null }),
    }
}

/// A repository entry of the persisted document.
pub open spec fn repoinfo_matches(x: RepoInfo, v: JVal) -> bool {
    v matches JVal::Obj(fs) && {
        &&& str_field(obj_lookup(fs, "root"@), x.root@)
        &&& str_field(obj_lookup(fs, "name"@), x.name@)
        &&& str_field(obj_lookup(fs, "default_branch"@), x.default_branch@)
        &&& nullable_str_matches(obj_lookup(fs, "remote_url"@), x.remote_url)
    }
}

pub open spec fn repoinfo_decodable(v: JVal) -> bool {
    v matches JVal::Obj(fs) && {
        &&& obj_lookup(fs, "root"@) matches Some(JVal::Str(_))
        &&& obj_lookup(fs, "name"@) matches Some(JVal::Str(_))
        &&& obj_lookup(fs, "default_branch"@) matches Some(JVal::Str(_))
        &&& nullable_str_ok(obj_lookup(fs, "remote_url"@))
    }
}

pub fn repoinfo_from_json(v: &JsonVal) -> (r: Option<RepoInfo>)
    ensures
        (r is Some) == repoinfo_decodable(jv(*v)),
        r matches Some(x) ==> repoinfo_matches(x, jv(*v)),
{
    match v {
        JsonVal::Obj(fs) => {
            let root = match get_str(fs, "root") {
                Some(x) => x,
                None => {
                    return None;
                },
            };
            let name = match get_str(fs, "name") {
                Some(x) => x,
                None => {
                    return None;
                },
            };
            let default_branch = match get_str(fs, "default_branch") {
                Some(x) => x,
                None => {
                    return None;
                },
            };
            let remote_url = match get_nullable_str(fs, "remote_url") {
                Some(o) => o,
                None => {
                    return None;
                },
            };
            Some(RepoInfo { root, name, default_branch, remote_url })
        },
        _ => None,
    }
}

pub fn repoinfo_to_json(x: &RepoInfo) -> (r: JsonVal)
    ensures
        repoinfo_matches(*x, jv(r)),
        repoinfo_decodable(jv(r)),
{
    let mut fs: Vec<JsonField> = Vec::new();
    push_str_field(&mut fs, "root", x.root.as_str());
    push_str_field(&mut fs, "name", x.name.as_str());
    push_str_field(&mut fs, "default_branch", x.default_branch.as_str());
    push_nullable_str_field(&mut fs, "remote_url", &x.remote_url);
    let r = JsonVal::Obj(fs);
    proof {
        let jfs = jv_fields(r->Obj_0@);
        reveal_strlit("root");
        reveal_strlit("name");
        reveal_strlit("default_branch");
        reveal_strlit("remote_url");
        assert(r->Obj_0@.len() == 4);
        crate::json::lemma_jv_fields_index(r->Obj_0@, 0);
        crate::json::lemma_jv_fields_index(r->Obj_0@, 1);
        crate::json::lemma_jv_fields_index(r->Obj_0@, 2);
        crate::json::lemma_jv_fields_index(r->Obj_0@, 3);
        assert("root"@[0] != "name"@[0]);
        assert("root"@.len() == 4);
        assert("name"@.len() == 4);
        assert("default_branch"@.len() == 14);
        assert("remote_url"@.len() == 10);
        crate::json::lemma_obj_lookup_at(jfs, "root"@, 0);
        crate::json::lemma_obj_lookup_at(jfs, "name"@, 1);
        crate::json::lemma_obj_lookup_at(jfs, "default_branch"@, 2);
        crate::json::lemma_obj_lookup_at(jfs, "remote_url"@, 3);
    }
    r
}


/// The metadata object of a session.
pub open spec fn metadata_matches(x: SessionMetadata, v: JVal) -> bool {
    v matches JVal::Obj(fs) && {
        &&& nullable_str_matches(obj_lookup(fs, "description"@), x.description)
        &&& nullable_u64_matches(obj_lookup(fs, "pr_number"@), x.pr_number)
        &&& nullable_uuid_matches(obj_lookup(fs, "parent_session"@), x.parent_session)
        &&& nullable_u32_matches(obj_lookup(fs, "turns"@), x.turns)
    }
}

pub open spec fn metadata_decodable(v: JVal) -> bool {
    v matches JVal::Obj(fs) && {
        &&& nullable_str_ok(obj_lookup(fs, "description"@))
        &&& nullable_u64_ok(obj_lookup(fs, "pr_number"@))
        &&& nullable_uuid_ok(obj_lookup(fs, "parent_session"@))
        &&& nullable_u32_ok(obj_lookup(fs, "turns"@))
    }
}

pub fn metadata_from_json(v: &JsonVal) -> (r: Option<SessionMetadata>)
    ensures
        (r is Some) == metadata_decodable(jv(*v)),
        r matches Some(x) ==> metadata_matches(x, jv(*v)),
{
    match v {
        JsonVal::Obj(fs) => {
            let description = match get_nullable_str(fs, "description") {
                Some(o) => o,
                None => {
                    return None;
                },
            };
            let pr_number = match get_nullable_u64(fs, "pr_number") {
                Some(o) => o,
                None => {
                    return None;
                },
            };
            let parent_session = match get_nullable_uuid(fs, "parent_session") {
                Some(o) => o,
                None => {
                    return None;
                },
            };
            let turns = match get_nullable_u32(fs, "turns") {
                Some(o) => o,
                None => {
                    return None;
                },
            };
            Some(SessionMetadata { description, pr_number, parent_session, turns })
        },
        _ => None,
    }
}

/// Appends a field with the given prepared value.
pub fn push_field(fields: &mut Vec<JsonField>, key: &str, val: JsonVal)
    ensures
        final(fields)@.len() == old(fields)@.len() + 1,
        final(fields)@.last().key@ == key@,
        final(fields)@.last().val == val,
        forall|j: int| 0 <= j < old(fields)@.len() ==> final(fields)@[j] == old(fields)@[j],
{
    fields.push(JsonField { key: key.to_owned(), val });
}

/// Appends a field holding a number or null.
fn push_nullable_u64_field(fields: &mut Vec<JsonField>, key: &str, val: &Option<u64>)
    ensures
        final(fields)@.len() == old(fields)@.len() + 1,
        final(fields)@.last().key@ == key@,
        nullable_u64_matches(Some(jv(final(fields)@.last().val)), *val),
        nullable_u64_ok(Some(jv(final(fields)@.last().val))),
        forall|j: int| 0 <= j < old(fields)@.len() ==> final(fields)@[j] == old(fields)@[j],
{
    match val {
        Some(n) => fields.push(JsonField { key: key.to_owned(), val: JsonVal::UNum(*n) }),
        None => fields.push(JsonField { key: key.to_owned(), val: JsonVal::Null }),
    }
}

/// Appends a field holding an identifier text or null.
fn push_nullable_uuid_field(fields: &mut Vec<JsonField>, key: &str, val: &Option<u128>)
    ensures
        final(fields)@.len() == old(fields)@.len() + 1,
        final(fields)@.last().key@ == key@,
        nullable_uuid_matches(Some(jv(final(fields)@.last().val)), *val),
        nullable_uuid_ok(Some(jv(final(fields)@.last().val))),
        forall|j: int| 0 <= j < old(fields)@.len() ==> final(fields)@[j] == old(fields)@[j],
{
    match val {
        Some(id) => {
            let t = ids::uuid_string(*id);
            fields.push(JsonField { key: key.to_owned(), val: JsonVal::Str(t) });
        },
        None => fields.push(JsonField { key: key.to_owned(), val: JsonVal::Null }),
    }
}

/// Appends a field holding a 32-bit count or null.
fn push_nullable_u32_field(fields: &mut Vec<JsonField>, key: &str, val: &Option<u32>)
    ensures
        final(fields)@.len() == old(fields)@.len() + 1,
        final(fields)@.last().key@ == key@,
        nullable_u32_matches(Some(jv(final(fields)@.last().val)), *val),
        nullable_u32_ok(Some(jv(final(fields)@.last().val))),
        forall|j: int| 0 <= j < old(fields)@.len() ==> final(fields)@[j] == old(fields)@[j],
{
    match val {
        Some(n) => fields.push(JsonField { key: key.to_owned(), val: JsonVal::UNum(*n as u64) }),
        None => fields.push(JsonField { key: key.to_owned(), val: JsonVal::Null }),
    }
}

pub fn metadata_to_json(x: &SessionMetadata) -> (r: JsonVal)
    ensures
        metadata_matches(*x, jv(r)),
        metadata_decodable(jv(r)),
{
    let mut fs: Vec<JsonField> = Vec::new();
    push_nullable_str_field(&mut fs, "description", &x.description);
    push_nullable_u64_field(&mut fs, "pr_number", &x.pr_number);
    push_nullable_uuid_field(&mut fs, "parent_session", &x.parent_session);
    push_nullable_u32_field(&mut fs, "turns", &x.turns);
    let r = JsonVal::Obj(fs);
    proof {
        let jfs = jv_fields(r->Obj_0@);
        reveal_strlit("description");
        reveal_strlit("pr_number");
        reveal_strlit("parent_session");
        reveal_strlit("turns");
        assert("description"@.len() == 11);
        assert("pr_number"@.len() == 9);
        assert("parent_session"@.len() == 14);
        assert("turns"@.len() == 5);
        assert(r->Obj_0@.len() == 4);
        crate::json::lemma_jv_fields_index(r->Obj_0@, 0);
        crate::json::lemma_jv_fields_index(r->Obj_0@, 1);
        crate::json::lemma_jv_fields_index(r->Obj_0@, 2);
        crate::json::lemma_jv_fields_index(r->Obj_0@, 3);
        crate::json::lemma_obj_lookup_at(jfs, "description"@, 0);
        crate::json::lemma_obj_lookup_at(jfs, "pr_number"@, 1);
        crate::json::lemma_obj_lookup_at(jfs, "parent_session"@, 2);
        crate::json::lemma_obj_lookup_at(jfs, "turns"@, 3);
    }
    r
}


/// Every element is a decodable repository entry.
pub open spec fn all_repos_decodable(items: Seq<JVal>) -> bool {
    forall|i: int| 0 <= i < items.len() ==> repoinfo_decodable(#[trigger] items[i])
}

/// The elements are exactly the document forms of the repositories.
pub open spec fn all_repos_match(rs: Seq<RepoInfo>, items: Seq<JVal>) -> bool {
    items.len() == rs.len() && forall|i: int|
        0 <= i < rs.len() ==> repoinfo_matches(rs[i], #[trigger] items[i])
}

/// The repository list of the document; a missing key reads as empty.
pub open spec fn repos_field_matches(l: Option<JVal>, rs: Seq<RepoInfo>) -> bool {
    match l {
        None => rs.len() == 0,
        Some(v) => v matches JVal::Arr(items) && all_repos_match(rs, items),
    }
}

pub open spec fn repos_field_ok(l: Option<JVal>) -> bool {
    match l {
        None => true,
        Some(v) => v matches JVal::Arr(items) && all_repos_decodable(items),
    }
}

/// Decodes a repository array.
pub fn repos_from_json(items: &Vec<JsonVal>) -> (r: Option<Vec<RepoInfo>>)
    ensures
        (r is Some) == all_repos_decodable(jv_list(items@)),
        r matches Some(v) ==> all_repos_match(v@, jv_list(items@)),
{
    let mut out: Vec<RepoInfo> = Vec::new();
    let mut i: usize = 0;
    proof {
        lemma_jv_list_len(items@);
    }
    while i < items.len()
        invariant
            0 <= i <= items@.len(),
            out@.len() == i,
            jv_list(items@).len() == items@.len(),
            forall|j: int|
                0 <= j < i ==> repoinfo_decodable(#[trigger] jv_list(items@)[j]) && repoinfo_matches(
                    out@[j],
                    jv_list(items@)[j],
                ),
        decreases items@.len() - i,
    {
        proof {
            lemma_jv_list_index(items@, i as int);
        }
        match repoinfo_from_json(&items[i]) {
            Some(x) => {
                out.push(x);
            },
            None => {
                return None;
            },
        }
        i = i + 1;
    }
    Some(out)
}

/// Encodes a repository array.
pub fn repos_to_json(xs: &Vec<RepoInfo>) -> (r: JsonVal)
    ensures
        r is Arr,
        jv(r) matches JVal::Arr(items) && all_repos_match(xs@, items) && all_repos_decodable(
            items,
        ),
{
    let mut out: Vec<JsonVal> = Vec::new();
    let mut i: usize = 0;
    proof {
        lemma_jv_list_len(out@);
    }
    while i < xs.len()
        invariant
            0 <= i <= xs@.len(),
            out@.len() == i,
            jv_list(out@).len() == i,
            forall|j: int|
                0 <= j < i ==> repoinfo_matches(xs@[j], #[trigger] jv_list(out@)[j])
                    && repoinfo_decodable(jv_list(out@)[j]),
        decreases xs@.len() - i,
    {
        let ghost prev = out@;
        let e = repoinfo_to_json(&xs[i]);
        proof {
            crate::json::lemma_jv_list_push(prev, e);
        }
        out.push(e);
        proof {
            assert(jv_list(out@) =~~= jv_list(prev).push(jv(e)));
            lemma_jv_list_len(out@);
        }
        i = i + 1;
    }
    JsonVal::Arr(out)
}

/// An element of the agent-id list: an identifier text.
pub open spec fn uuid_item_matches(v: JVal, id: u128) -> bool {
    v matches JVal::Str(t) && ids::uuid_of_chars(t) == Some(id)
}

pub open spec fn uuid_item_ok(v: JVal) -> bool {
    v matches JVal::Str(t) && ids::uuid_of_chars(t) is Some
}

/// Every element is a well-formed identifier text.
pub open spec fn all_uuid_items_ok(items: Seq<JVal>) -> bool {
    forall|i: int| 0 <= i < items.len() ==> uuid_item_ok(#[trigger] items[i])
}

/// The elements are exactly the identifier texts of the list.
pub open spec fn all_uuid_items_match(xs: Seq<u128>, items: Seq<JVal>) -> bool {
    items.len() == xs.len() && forall|i: int|
        0 <= i < xs.len() ==> uuid_item_matches(#[trigger] items[i], xs[i])
}

/// Decodes a list of identifier texts.
pub fn uuid_list_from_json(items: &Vec<JsonVal>) -> (r: Option<Vec<u128>>)
    ensures
        (r is Some) == all_uuid_items_ok(jv_list(items@)),
        r matches Some(v) ==> all_uuid_items_match(v@, jv_list(items@)),
{
    let mut out: Vec<u128> = Vec::new();
    let mut i: usize = 0;
    proof {
        lemma_jv_list_len(items@);
    }
    while i < items.len()
        invariant
            0 <= i <= items@.len(),
            out@.len() == i,
            jv_list(items@).len() == items@.len(),
            forall|j: int|
                0 <= j < i ==> uuid_item_ok(#[trigger] jv_list(items@)[j]) && uuid_item_matches(
                    jv_list(items@)[j],
                    out@[j],
                ),
        decreases items@.len() - i,
    {
        proof {
            lemma_jv_list_index(items@, i as int);
        }
        match &items[i] {
            JsonVal::Str(t) => match ids::parse_uuid(t.as_str()) {
                Some(id) => {
                    out.push(id);
                },
                None => {
                    return None;
                },
            },
            _ => {
                return None;
            },
        }
        i = i + 1;
    }
    Some(out)
}

/// Encodes a list of identifiers as their texts.
pub fn uuid_list_to_json(xs: &Vec<u128>) -> (r: JsonVal)
    ensures
        jv(r) matches JVal::Arr(items) && all_uuid_items_match(xs@, items) && all_uuid_items_ok(
            items,
        ),
{
    let mut out: Vec<JsonVal> = Vec::new();
    let mut i: usize = 0;
    proof {
        lemma_jv_list_len(out@);
    }
    while i < xs.len()
        invariant
            0 <= i <= xs@.len(),
            out@.len() == i,
            jv_list(out@).len() == i,
            forall|j: int|
                0 <= j < i ==> uuid_item_matches(#[trigger] jv_list(out@)[j], xs@[j]) && uuid_item_ok(
                    jv_list(out@)[j],
                ),
        decreases xs@.len() - i,
    {
        let ghost prev = out@;
        let e = JsonVal::Str(ids::uuid_string(xs[i]));
        proof {
            crate::json::lemma_jv_list_push(prev, e);
        }
        out.push(e);
        proof {
            assert(jv_list(out@) =~~= jv_list(prev).push(jv(e)));
            lemma_jv_list_len(out@);
        }
        i = i + 1;
    }
    JsonVal::Arr(out)
}

/// Every entry of the map object holds a string path.
pub open spec fn rw_entries_ok(fs: Seq<(Seq<char>, JVal)>) -> bool {
    forall|i: int| 0 <= i < fs.len() ==> (#[trigger] fs[i]).1 is Str
}

/// The entries are exactly the working-copy map, in order.
pub open spec fn rw_entries_match(rw: Seq<RepoWorktree>, fs: Seq<(Seq<char>, JVal)>) -> bool {
    fs.len() == rw.len() && forall|i: int|
        0 <= i < rw.len() ==> #[trigger] fs[i] == (rw[i].repo@, JVal::Str(rw[i].path@))
}

/// The per-repository working-copy map; a missing key reads as empty.
pub open spec fn rwmap_field_matches(l: Option<JVal>, rw: Seq<RepoWorktree>) -> bool {
    match l {
        None => rw.len() == 0,
        Some(v) => v matches JVal::Obj(fs) && rw_entries_match(rw, fs),
    }
}

pub open spec fn rwmap_field_ok(l: Option<JVal>) -> bool {
    match l {
        None => true,
        Some(v) => v matches JVal::Obj(fs) && rw_entries_ok(fs),
    }
}

/// Decodes the working-copy map from its object form.
pub fn rwmap_from_fields(inner: &Vec<JsonField>) -> (r: Option<Vec<RepoWorktree>>)
    ensures
        (r is Some) == rw_entries_ok(jv_fields(inner@)),
        r matches Some(v) ==> rw_entries_match(v@, jv_fields(inner@)),
{
    let mut out: Vec<RepoWorktree> = Vec::new();
    let mut i: usize = 0;
    proof {
        crate::json::lemma_jv_fields_len(inner@);
    }
    while i < inner.len()
        invariant
            0 <= i <= inner@.len(),
            out@.len() == i,
            jv_fields(inner@).len() == inner@.len(),
            forall|j: int|
                0 <= j < i ==> (#[trigger] jv_fields(inner@)[j]) == (
                    out@[j].repo@,
                    JVal::Str(out@[j].path@),
                ),
        decreases inner@.len() - i,
    {
        proof {
            crate::json::lemma_jv_fields_index(inner@, i as int);
        }
        match &inner[i].val {
            JsonVal::Str(path) => {
                out.push(RepoWorktree { repo: inner[i].key.clone(), path: path.clone() });
            },
            _ => {
                proof {
                    lemma_jv_shape(inner@[i as int].val);
                    assert(!((jv_fields(inner@)[i as int]).1 is Str));
                }
                return None;
            },
        }
        i = i + 1;
    }
    Some(out)
}

/// Encodes the working-copy map as an object.
pub fn rwmap_to_json(rw: &Vec<RepoWorktree>) -> (r: JsonVal)
    ensures
        rwmap_field_matches(Some(jv(r)), rw@),
        rwmap_field_ok(Some(jv(r))),
{
    let mut out: Vec<JsonField> = Vec::new();
    let mut i: usize = 0;
    proof {
        crate::json::lemma_jv_fields_len(out@);
    }
    while i < rw.len()
        invariant
            0 <= i <= rw@.len(),
            out@.len() == i,
            jv_fields(out@).len() == i,
            forall|j: int|
                0 <= j < i ==> #[trigger] jv_fields(out@)[j] == (
                    rw@[j].repo@,
                    JVal::Str(rw@[j].path@),
                ),
        decreases rw@.len() - i,
    {
        let ghost prev = out@;
        let f = JsonField { key: rw[i].repo.clone(), val: JsonVal::Str(rw[i].path.clone()) };
        proof {
            crate::json::lemma_jv_fields_push(prev, f);
        }
        out.push(f);
        proof {
            assert(jv_fields(out@) =~~= jv_fields(prev).push((f.key@, jv(f.val))));
            crate::json::lemma_jv_fields_len(out@);
        }
        i = i + 1;
    }
    JsonVal::Obj(out)
}

/// The workspace kind field; a missing key reads as the single-repo kind.
pub open spec fn kind_field_matches(l: Option<JVal>, k: WorkspaceKind) -> bool {
    match l {
        None => k is SingleRepo,
        Some(v) => v == kind_jval(k),
    }
}

pub open spec fn kind_field_ok(l: Option<JVal>) -> bool {
    match l {
        None => true,
        Some(v) => kind_decodable(v),
    }
}

/// The workspace object of the persisted document.
pub open spec fn workspace_matches(x: Workspace, v: JVal) -> bool {
    v matches JVal::Obj(fs) && {
        &&& str_field(obj_lookup(fs, "root"@), x.root@)
        &&& str_field(obj_lookup(fs, "name"@), x.name@)
        &&& str_field(obj_lookup(fs, "default_branch"@), x.default_branch@)
        &&& nullable_str_matches(obj_lookup(fs, "remote_url"@), x.remote_url)
        &&& str_field(obj_lookup(fs, "worktree_prefix"@), x.worktree_prefix@)
        &&& str_field(obj_lookup(fs, "worktree_base_dir"@), x.worktree_base_dir@)
        &&& kind_field_matches(obj_lookup(fs, "kind"@), x.kind)
        &&& repos_field_matches(obj_lookup(fs, "repos"@), x.repos@)
    }
}

pub open spec fn workspace_decodable(v: JVal) -> bool {
    v matches JVal::Obj(fs) && {
        &&& obj_lookup(fs, "root"@) matches Some(JVal::Str(_))
        &&& obj_lookup(fs, "name"@) matches Some(JVal::Str(_))
        &&& obj_lookup(fs, "default_branch"@) matches Some(JVal::Str(_))
        &&& nullable_str_ok(obj_lookup(fs, "remote_url"@))
        &&& obj_lookup(fs, "worktree_prefix"@) matches Some(JVal::Str(_))
        &&& obj_lookup(fs, "worktree_base_dir"@) matches Some(JVal::Str(_))
        &&& kind_field_ok(obj_lookup(fs, "kind"@))
        &&& repos_field_ok(obj_lookup(fs, "repos"@))
    }
}

/// Decodes a workspace; `kind` defaults to single-repo and `repos` to the
/// empty list when the document lacks them.
pub fn workspace_from_json(v: &JsonVal) -> (r: Option<Workspace>)
    ensures
        (r is Some) == workspace_decodable(jv(*v)),
        r matches Some(x) ==> workspace_matches(x, jv(*v)),
{
    match v {
        JsonVal::Obj(fs) => {
            let root = match get_str(fs, "root") {
                Some(x) => x,
                None => {
                    return None;
                },
            };
            let name = match get_str(fs, "name") {
                Some(x) => x,
                None => {
                    return None;
                },
            };
            let default_branch = match get_str(fs, "default_branch") {
                Some(x) => x,
                None => {
                    return None;
                },
            };
            let remote_url = match get_nullable_str(fs, "remote_url") {
                Some(o) => o,
                None => {
                    return None;
                },
            };
            let worktree_prefix = match get_str(fs, "worktree_prefix") {
                Some(x) => x,
                None => {
                    return None;
                },
            };
            let worktree_base_dir = match get_str(fs, "worktree_base_dir") {
                Some(x) => x,
                None => {
                    return None;
                },
            };
            let kind = match obj_get(fs, "kind") {
                None => WorkspaceKind::SingleRepo,
                Some(kv) => match kind_from_json(kv) {
                    Some(k) => k,
                    None => {
                        return None;
                    },
                },
            };
            let repos = match obj_get(fs, "repos") {
                None => Vec::new(),
                Some(rv) => match rv {
                    JsonVal::Arr(items) => {
                        proof {
                            lemma_jv_list_len(items@);
                            assert(jv(*rv) == JVal::Arr(jv_list(items@)));
                        }
                        match repos_from_json(items) {
                            Some(rs) => rs,
                            None => {
                                return None;
                            },
                        }
                    },
                    _ => {
                        proof {
                            lemma_jv_shape(*rv);
                        }
                        return None;
                    },
                },
            };
            Some(
                Workspace {
                    root,
                    name,
                    default_branch,
                    remote_url,
                    worktree_prefix,
                    worktree_base_dir,
                    kind,
                    repos,
                },
            )
        },
        _ => {
            proof {
                lemma_jv_shape(*v);
            }
            None
        },
    }
}

pub fn workspace_to_json(x: &Workspace) -> (r: JsonVal)
    ensures
        workspace_matches(*x, jv(r)),
        workspace_decodable(jv(r)),
{
    let mut fs: Vec<JsonField> = Vec::new();
    push_str_field(&mut fs, "root", x.root.as_str());
    push_str_field(&mut fs, "name", x.name.as_str());
    push_str_field(&mut fs, "default_branch", x.default_branch.as_str());
    push_nullable_str_field(&mut fs, "remote_url", &x.remote_url);
    push_str_field(&mut fs, "worktree_prefix", x.worktree_prefix.as_str());
    push_str_field(&mut fs, "worktree_base_dir", x.worktree_base_dir.as_str());
    push_field(&mut fs, "kind", kind_to_json(&x.kind));
    push_field(&mut fs, "repos", repos_to_json(&x.repos));
    let r = JsonVal::Obj(fs);
    proof {
        let jfs = jv_fields(r->Obj_0@);
        reveal_strlit("root");
        reveal_strlit("name");
        reveal_strlit("default_branch");
        reveal_strlit("remote_url");
        reveal_strlit("worktree_prefix");
        reveal_strlit("worktree_base_dir");
        reveal_strlit("kind");
        reveal_strlit("repos");
        assert("root"@.len() == 4);
        assert("name"@.len() == 4);
        assert("default_branch"@.len() == 14);
        assert("remote_url"@.len() == 10);
        assert("worktree_prefix"@.len() == 15);
        assert("worktree_base_dir"@.len() == 17);
        assert("kind"@.len() == 4);
        assert("repos"@.len() == 5);
        assert("root"@[0] != "name"@[0]);
        assert("root"@[0] != "kind"@[0]);
        assert("name"@[0] != "kind"@[0]);
        assert(r->Obj_0@.len() == 8);
        crate::json::lemma_jv_fields_index(r->Obj_0@, 0);
        crate::json::lemma_jv_fields_index(r->Obj_0@, 1);
        crate::json::lemma_jv_fields_index(r->Obj_0@, 2);
        crate::json::lemma_jv_fields_index(r->Obj_0@, 3);
        crate::json::lemma_jv_fields_index(r->Obj_0@, 4);
        crate::json::lemma_jv_fields_index(r->Obj_0@, 5);
        crate::json::lemma_jv_fields_index(r->Obj_0@, 6);
        crate::json::lemma_jv_fields_index(r->Obj_0@, 7);
        crate::json::lemma_obj_lookup_at(jfs, "root"@, 0);
        crate::json::lemma_obj_lookup_at(jfs, "name"@, 1);
        crate::json::lemma_obj_lookup_at(jfs, "default_branch"@, 2);
        crate::json::lemma_obj_lookup_at(jfs, "remote_url"@, 3);
        crate::json::lemma_obj_lookup_at(jfs, "worktree_prefix"@, 4);
        crate::json::lemma_obj_lookup_at(jfs, "worktree_base_dir"@, 5);
        crate::json::lemma_obj_lookup_at(jfs, "kind"@, 6);
        crate::json::lemma_obj_lookup_at(jfs, "repos"@, 7);
    }
    r
}


/// A status field holding the document form of a session status.
pub open spec fn session_status_field_matches(l: Option<JVal>, st: SessionStatus) -> bool {
    l == Some(session_status_jval(st))
}

pub open spec fn session_status_field_ok(l: Option<JVal>) -> bool {
    l matches Some(sv) && session_status_decodable(sv)
}

/// A boolean field; a missing key reads as false.
pub open spec fn bool_field_matches(l: Option<JVal>, b: bool) -> bool {
    match l {
        None => !b,
        Some(v) => v == JVal::Bool(b),
    }
}

pub open spec fn bool_field_ok(l: Option<JVal>) -> bool {
    match l {
        None => true,
        Some(v) => v is Bool,
    }
}

/// A session of the persisted document.
pub open spec fn session_matches(x: Session, v: JVal) -> bool {
    v matches JVal::Obj(fs) && {
        &&& uuid_field_matches(obj_lookup(fs, "id"@), x.id)
        &&& str_field(obj_lookup(fs, "name"@), x.name@)
        &&& str_field(obj_lookup(fs, "branch"@), x.branch@)
        &&& str_field(obj_lookup(fs, "worktree_path"@), x.worktree_path@)
        &&& str_field(obj_lookup(fs, "tmux_window"@), x.tmux_window@)
        &&& session_status_field_matches(obj_lookup(fs, "status"@), x.status)
        &&& nullable_str_matches(obj_lookup(fs, "claude_session_id"@), x.claude_session_id)
        &&& nullable_str_matches(obj_lookup(fs, "template"@), x.template)
        &&& nullable_str_matches(
            obj_lookup(fs, "system_prompt_override"@),
            x.system_prompt_override,
        )
        &&& str_field(obj_lookup(fs, "created_at"@), x.created_at@)
        &&& str_field(obj_lookup(fs, "updated_at"@), x.updated_at@)
        &&& (obj_lookup(fs, "agents"@) matches Some(av) && av matches JVal::Arr(items)
            && all_uuid_items_match(x.agents@, items))
        &&& (obj_lookup(fs, "metadata"@) matches Some(mv) && metadata_matches(x.metadata, mv))
        &&& bool_field_matches(obj_lookup(fs, "is_main"@), x.is_main)
        &&& rwmap_field_matches(obj_lookup(fs, "repo_worktrees"@), x.repo_worktrees@)
    }
}

pub open spec fn session_decodable(v: JVal) -> bool {
    v matches JVal::Obj(fs) && {
        &&& uuid_field_ok(obj_lookup(fs, "id"@))
        &&& obj_lookup(fs, "name"@) matches Some(JVal::Str(_))
        &&& obj_lookup(fs, "branch"@) matches Some(JVal::Str(_))
        &&& obj_lookup(fs, "worktree_path"@) matches Some(JVal::Str(_))
        &&& obj_lookup(fs, "tmux_window"@) matches Some(JVal::Str(_))
        &&& session_status_field_ok(obj_lookup(fs, "status"@))
        &&& nullable_str_ok(obj_lookup(fs, "claude_session_id"@))
        &&& nullable_str_ok(obj_lookup(fs, "template"@))
        &&& nullable_str_ok(obj_lookup(fs, "system_prompt_override"@))
        &&& obj_lookup(fs, "created_at"@) matches Some(JVal::Str(_))
        &&& obj_lookup(fs, "updated_at"@) matches Some(JVal::Str(_))
        &&& (obj_lookup(fs, "agents"@) matches Some(av) && av matches JVal::Arr(items)
            && all_uuid_items_ok(items))
        &&& (obj_lookup(fs, "metadata"@) matches Some(mv) && metadata_decodable(mv))
        &&& bool_field_ok(obj_lookup(fs, "is_main"@))
        &&& rwmap_field_ok(obj_lookup(fs, "repo_worktrees"@))
    }
}

pub fn session_from_json(v: &JsonVal) -> (r: Option<Session>)
    ensures
        (r is Some) == session_decodable(jv(*v)),
        r matches Some(x) ==> session_matches(x, jv(*v)),
{
    match v {
        JsonVal::Obj(fs) => {
            let id = match get_uuid(fs, "id") {
                Some(x) => x,
                None => {
                    return None;
                },
            };
            let name = match get_str(fs, "name") {
                Some(x) => x,
                None => {
                    return None;
                },
            };
            let branch = match get_str(fs, "branch") {
                Some(x) => x,
                None => {
                    return None;
                },
            };
            let worktree_path = match get_str(fs, "worktree_path") {
                Some(x) => x,
                None => {
                    return None;
                },
            };
            let tmux_window = match get_str(fs, "tmux_window") {
                Some(x) => x,
                None => {
                    return None;
                },
            };
            let status = match obj_get(fs, "status") {
                Some(sv) => match session_status_from_json(sv) {
                    Some(st) => st,
                    None => {
                        return None;
                    },
                },
                None => {
                    return None;
                },
            };
            let claude_session_id = match get_nullable_str(fs, "claude_session_id") {
                Some(o) => o,
                None => {
                    return None;
                },
            };
            let template = match get_nullable_str(fs, "template") {
                Some(o) => o,
                None => {
                    return None;
                },
            };
            let system_prompt_override = match get_nullable_str(fs, "system_prompt_override") {
                Some(o) => o,
                None => {
                    return None;
                },
            };
            let created_at = match get_str(fs, "created_at") {
                Some(x) => x,
                None => {
                    return None;
                },
            };
            let updated_at = match get_str(fs, "updated_at") {
                Some(x) => x,
                None => {
                    return None;
                },
            };
            let agents = match obj_get(fs, "agents") {
                Some(av) => match av {
                    JsonVal::Arr(items) => {
                        proof {
                            lemma_jv_list_len(items@);
                            assert(jv(*av) == JVal::Arr(jv_list(items@)));
                        }
                        match uuid_list_from_json(items) {
                            Some(xs) => xs,
                            None => {
                                return None;
                            },
                        }
                    },
                    _ => {
                        proof {
                            lemma_jv_shape(*av);
                        }
                        return None;
                    },
                },
                None => {
                    return None;
                },
            };
            let metadata = match obj_get(fs, "metadata") {
                Some(mv) => match metadata_from_json(mv) {
                    Some(m) => m,
                    None => {
                        return None;
                    },
                },
                None => {
                    return None;
                },
            };
            let is_main = match obj_get(fs, "is_main") {
                None => false,
                Some(bv) => match bv {
                    JsonVal::Bool(b) => *b,
                    _ => {
                        proof {
                            lemma_jv_shape(*bv);
                        }
                        return None;
                    },
                },
            };
            let repo_worktrees = match obj_get(fs, "repo_worktrees") {
                None => Vec::new(),
                Some(rv) => match rv {
                    JsonVal::Obj(inner) => {
                        proof {
                            crate::json::lemma_jv_fields_len(inner@);
                            assert(jv(*rv) == JVal::Obj(jv_fields(inner@)));
                        }
                        match rwmap_from_fields(inner) {
                            Some(xs) => xs,
                            None => {
                                return None;
                            },
                        }
                    },
                    _ => {
                        proof {
                            lemma_jv_shape(*rv);
                        }
                        return None;
                    },
                },
            };
            Some(
                Session {
                    id,
                    name,
                    branch,
                    worktree_path,
                    tmux_window,
                    status,
                    claude_session_id,
                    template,
                    system_prompt_override,
                    created_at,
                    updated_at,
                    agents,
                    metadata,
                    is_main,
                    repo_worktrees,
                },
            )
        },
        _ => {
            proof {
                lemma_jv_shape(*v);
            }
            None
        },
    }
}

pub fn session_to_json(x: &Session) -> (r: JsonVal)
    ensures
        session_matches(*x, jv(r)),
        session_decodable(jv(r)),
{
    let mut fs: Vec<JsonField> = Vec::new();
    push_field(&mut fs, "id", JsonVal::Str(ids::uuid_string(x.id)));
    push_str_field(&mut fs, "name", x.name.as_str());
    push_str_field(&mut fs, "branch", x.branch.as_str());
    push_str_field(&mut fs, "worktree_path", x.worktree_path.as_str());
    push_str_field(&mut fs, "tmux_window", x.tmux_window.as_str());
    push_field(&mut fs, "status", session_status_to_json(&x.status));
    push_nullable_str_field(&mut fs, "claude_session_id", &x.claude_session_id);
    push_nullable_str_field(&mut fs, "template", &x.template);
    push_nullable_str_field(&mut fs, "system_prompt_override", &x.system_prompt_override);
    push_str_field(&mut fs, "created_at", x.created_at.as_str());
    push_str_field(&mut fs, "updated_at", x.updated_at.as_str());
    push_field(&mut fs, "agents", uuid_list_to_json(&x.agents));
    push_field(&mut fs, "metadata", metadata_to_json(&x.metadata));
    push_field(&mut fs, "is_main", JsonVal::Bool(x.is_main));
    push_field(&mut fs, "repo_worktrees", rwmap_to_json(&x.repo_worktrees));
    let r = JsonVal::Obj(fs);
    proof {
        let jfs = jv_fields(r->Obj_0@);
        reveal_strlit("id");
        reveal_strlit("name");
        reveal_strlit("branch");
        reveal_strlit("worktree_path");
        reveal_strlit("tmux_window");
        reveal_strlit("status");
        reveal_strlit("claude_session_id");
        reveal_strlit("template");
        reveal_strlit("system_prompt_override");
        reveal_strlit("created_at");
        reveal_strlit("updated_at");
        reveal_strlit("agents");
        reveal_strlit("metadata");
        reveal_strlit("is_main");
        reveal_strlit("repo_worktrees");
        assert("id"@.len() == 2);
        assert("name"@.len() == 4);
        assert("branch"@.len() == 6);
        assert("worktree_path"@.len() == 13);
        assert("tmux_window"@.len() == 11);
        assert("status"@.len() == 6);
        assert("claude_session_id"@.len() == 17);
        assert("template"@.len() == 8);
        assert("system_prompt_override"@.len() == 22);
        assert("created_at"@.len() == 10);
        assert("updated_at"@.len() == 10);
        assert("agents"@.len() == 6);
        assert("metadata"@.len() == 8);
        assert("is_main"@.len() == 7);
        assert("repo_worktrees"@.len() == 14);
        assert("branch"@[0] != "status"@[0]);
        assert("branch"@[0] != "agents"@[0]);
        assert("status"@[0] != "agents"@[0]);
        assert("template"@[0] != "metadata"@[0]);
        assert("created_at"@[0] != "updated_at"@[0]);
        assert(r->Obj_0@.len() == 15);
        crate::json::lemma_jv_fields_index(r->Obj_0@, 0);
        crate::json::lemma_jv_fields_index(r->Obj_0@, 1);
        crate::json::lemma_jv_fields_index(r->Obj_0@, 2);
        crate::json::lemma_jv_fields_index(r->Obj_0@, 3);
        crate::json::lemma_jv_fields_index(r->Obj_0@, 4);
        crate::json::lemma_jv_fields_index(r->Obj_0@, 5);
        crate::json::lemma_jv_fields_index(r->Obj_0@, 6);
        crate::json::lemma_jv_fields_index(r->Obj_0@, 7);
        crate::json::lemma_jv_fields_index(r->Obj_0@, 8);
        crate::json::lemma_jv_fields_index(r->Obj_0@, 9);
        crate::json::lemma_jv_fields_index(r->Obj_0@, 10);
        crate::json::lemma_jv_fields_index(r->Obj_0@, 11);
        crate::json::lemma_jv_fields_index(r->Obj_0@, 12);
        crate::json::lemma_jv_fields_index(r->Obj_0@, 13);
        crate::json::lemma_jv_fields_index(r->Obj_0@, 14);
        crate::json::lemma_obj_lookup_at(jfs, "id"@, 0);
        crate::json::lemma_obj_lookup_at(jfs, "name"@, 1);
        crate::json::lemma_obj_lookup_at(jfs, "branch"@, 2);
        crate::json::lemma_obj_lookup_at(jfs, "worktree_path"@, 3);
        crate::json::lemma_obj_lookup_at(jfs, "tmux_window"@, 4);
        crate::json::lemma_obj_lookup_at(jfs, "status"@, 5);
        crate::json::lemma_obj_lookup_at(jfs, "claude_session_id"@, 6);
        crate::json::lemma_obj_lookup_at(jfs, "template"@, 7);
        crate::json::lemma_obj_lookup_at(jfs, "system_prompt_override"@, 8);
        crate::json::lemma_obj_lookup_at(jfs, "created_at"@, 9);
        crate::json::lemma_obj_lookup_at(jfs, "updated_at"@, 10);
        crate::json::lemma_obj_lookup_at(jfs, "agents"@, 11);
        crate::json::lemma_obj_lookup_at(jfs, "metadata"@, 12);
        crate::json::lemma_obj_lookup_at(jfs, "is_main"@, 13);
        crate::json::lemma_obj_lookup_at(jfs, "repo_worktrees"@, 14);
    }
    r
}

/// The result object of a completed agent.
pub open spec fn agentresult_matches(x: AgentResult, v: JVal) -> bool {
    v matches JVal::Obj(fs) && {
        &&& obj_lookup(fs, "success"@) == Some(JVal::Bool(x.success))
        &&& str_field(obj_lookup(fs, "summary"@), x.summary@)
        &&& obj_lookup(fs, "duration_ms"@) == Some(JVal::UNum(x.duration_ms))
        &&& str_field(obj_lookup(fs, "session_id"@), x.session_id@)
        &&& nullable_str_matches(obj_lookup(fs, "raw_result"@), x.raw_result)
    }
}

pub open spec fn agentresult_decodable(v: JVal) -> bool {
    v matches JVal::Obj(fs) && {
        &&& obj_lookup(fs, "success"@) matches Some(JVal::Bool(_))
        &&& obj_lookup(fs, "summary"@) matches Some(JVal::Str(_))
        &&& obj_lookup(fs, "duration_ms"@) matches Some(JVal::UNum(_))
        &&& obj_lookup(fs, "session_id"@) matches Some(JVal::Str(_))
        &&& nullable_str_ok(obj_lookup(fs, "raw_result"@))
    }
}

pub fn agentresult_from_json(v: &JsonVal) -> (r: Option<AgentResult>)
    ensures
        (r is Some) == agentresult_decodable(jv(*v)),
        r matches Some(x) ==> agentresult_matches(x, jv(*v)),
{
    match v {
        JsonVal::Obj(fs) => {
            let success = match get_bool(fs, "success") {
                Some(x) => x,
                None => {
                    return None;
                },
            };
            let summary = match get_str(fs, "summary") {
                Some(x) => x,
                None => {
                    return None;
                },
            };
            let duration_ms = match get_u64(fs, "duration_ms") {
                Some(x) => x,
                None => {
                    return None;
                },
            };
            let session_id = match get_str(fs, "session_id") {
                Some(x) => x,
                None => {
                    return None;
                },
            };
            let raw_result = match get_nullable_str(fs, "raw_result") {
                Some(o) => o,
                None => {
                    return None;
                },
            };
            Some(AgentResult { success, summary, duration_ms, session_id, raw_result })
        },
        _ => {
            proof {
                lemma_jv_shape(*v);
            }
            None
        },
    }
}

pub fn agentresult_to_json(x: &AgentResult) -> (r: JsonVal)
    ensures
        agentresult_matches(*x, jv(r)),
        agentresult_decodable(jv(r)),
{
    let mut fs: Vec<JsonField> = Vec::new();
    push_field(&mut fs, "success", JsonVal::Bool(x.success));
    push_str_field(&mut fs, "summary", x.summary.as_str());
    push_field(&mut fs, "duration_ms", JsonVal::UNum(x.duration_ms));
    push_str_field(&mut fs, "session_id", x.session_id.as_str());
    push_nullable_str_field(&mut fs, "raw_result", &x.raw_result);
    let r = JsonVal::Obj(fs);
    proof {
        let jfs = jv_fields(r->Obj_0@);
        reveal_strlit("success");
        reveal_strlit("summary");
        reveal_strlit("duration_ms");
        reveal_strlit("session_id");
        reveal_strlit("raw_result");
        assert("success"@.len() == 7);
        assert("summary"@.len() == 7);
        assert("duration_ms"@.len() == 11);
        assert("session_id"@.len() == 10);
        assert("raw_result"@.len() == 10);
        assert("success"@[2] != "summary"@[2]);
        assert("session_id"@[0] != "raw_result"@[0]);
        assert(r->Obj_0@.len() == 5);
        crate::json::lemma_jv_fields_index(r->Obj_0@, 0);
        crate::json::lemma_jv_fields_index(r->Obj_0@, 1);
        crate::json::lemma_jv_fields_index(r->Obj_0@, 2);
        crate::json::lemma_jv_fields_index(r->Obj_0@, 3);
        crate::json::lemma_jv_fields_index(r->Obj_0@, 4);
        crate::json::lemma_obj_lookup_at(jfs, "success"@, 0);
        crate::json::lemma_obj_lookup_at(jfs, "summary"@, 1);
        crate::json::lemma_obj_lookup_at(jfs, "duration_ms"@, 2);
        crate::json::lemma_obj_lookup_at(jfs, "session_id"@, 3);
        crate::json::lemma_obj_lookup_at(jfs, "raw_result"@, 4);
    }
    r
}

/// A result field holding an agent result or null.
pub open spec fn result_field_matches(l: Option<JVal>, o: Option<AgentResult>) -> bool {
    match o {
        Some(x) => l matches Some(rv) && agentresult_matches(x, rv),
        None => l == Some(JVal::Null),
    }
}

pub open spec fn result_field_ok(l: Option<JVal>) -> bool {
    match l {
        Some(JVal::Null) => true,
        Some(rv) => agentresult_decodable(rv),
        None => false,
    }
}

/// An agent status field.
pub open spec fn agent_status_field_matches(l: Option<JVal>, st: AgentStatus) -> bool {
    l == Some(agent_status_jval(st))
}

pub open spec fn agent_status_field_ok(l: Option<JVal>) -> bool {
    l matches Some(sv) && agent_status_decodable(sv)
}

/// An agent of the persisted document.
pub open spec fn agent_matches(x: Agent, v: JVal) -> bool {
    v matches JVal::Obj(fs) && {
        &&& uuid_field_matches(obj_lookup(fs, "id"@), x.id)
        &&& uuid_field_matches(obj_lookup(fs, "parent_session"@), x.parent_session)
        &&& str_field(obj_lookup(fs, "name"@), x.name@)
        &&& obj_lookup(fs, "mode"@) == Some(mode_jval(x.mode))
        &&& agent_status_field_matches(obj_lookup(fs, "status"@), x.status)
        &&& nullable_str_matches(obj_lookup(fs, "template"@), x.template)
        &&& str_field(obj_lookup(fs, "prompt"@), x.prompt@)
        &&& nullable_str_matches(obj_lookup(fs, "system_prompt"@), x.system_prompt)
        &&& str_field(obj_lookup(fs, "worktree_path"@), x.worktree_path@)
        &&& nullable_str_matches(obj_lookup(fs, "tmux_pane"@), x.tmux_pane)
        &&& nullable_u32_matches(obj_lookup(fs, "pid"@), x.pid)
        &&& nullable_str_matches(obj_lookup(fs, "claude_session_id"@), x.claude_session_id)
        &&& str_field(obj_lookup(fs, "output_file"@), x.output_file@)
        &&& result_field_matches(obj_lookup(fs, "result"@), x.result)
        &&& str_field(obj_lookup(fs, "created_at"@), x.created_at@)
        &&& nullable_str_matches(obj_lookup(fs, "completed_at"@), x.completed_at)
    }
}

pub open spec fn agent_decodable(v: JVal) -> bool {
    v matches JVal::Obj(fs) && {
        &&& uuid_field_ok(obj_lookup(fs, "id"@))
        &&& uuid_field_ok(obj_lookup(fs, "parent_session"@))
        &&& obj_lookup(fs, "name"@) matches Some(JVal::Str(_))
        &&& (obj_lookup(fs, "mode"@) matches Some(mv) && mode_decodable(mv))
        &&& agent_status_field_ok(obj_lookup(fs, "status"@))
        &&& nullable_str_ok(obj_lookup(fs, "template"@))
        &&& obj_lookup(fs, "prompt"@) matches Some(JVal::Str(_))
        &&& nullable_str_ok(obj_lookup(fs, "system_prompt"@))
        &&& obj_lookup(fs, "worktree_path"@) matches Some(JVal::Str(_))
        &&& nullable_str_ok(obj_lookup(fs, "tmux_pane"@))
        &&& nullable_u32_ok(obj_lookup(fs, "pid"@))
        &&& nullable_str_ok(obj_lookup(fs, "claude_session_id"@))
        &&& obj_lookup(fs, "output_file"@) matches Some(JVal::Str(_))
        &&& result_field_ok(obj_lookup(fs, "result"@))
        &&& obj_lookup(fs, "created_at"@) matches Some(JVal::Str(_))
        &&& nullable_str_ok(obj_lookup(fs, "completed_at"@))
    }
}

pub fn agent_from_json(v: &JsonVal) -> (r: Option<Agent>)
    ensures
        (r is Some) == agent_decodable(jv(*v)),
        r matches Some(x) ==> agent_matches(x, jv(*v)),
{
    match v {
        JsonVal::Obj(fs) => {
            let id = match get_uuid(fs, "id") {
                Some(x) => x,
                None => {
                    return None;
                },
            };
            let parent_session = match get_uuid(fs, "parent_session") {
                Some(x) => x,
                None => {
                    return None;
                },
            };
            let name = match get_str(fs, "name") {
                Some(x) => x,
                None => {
                    return None;
                },
            };
            let mode = match obj_get(fs, "mode") {
                Some(mv) => match mode_from_json(mv) {
                    Some(m) => m,
                    None => {
                        return None;
                    },
                },
                None => {
                    return None;
                },
            };
            let status = match obj_get(fs, "status") {
                Some(sv) => match agent_status_from_json(sv) {
                    Some(st) => st,
                    None => {
                        return None;
                    },
                },
                None => {
                    return None;
                },
            };
            let template = match get_nullable_str(fs, "template") {
                Some(o) => o,
                None => {
                    return None;
                },
            };
            let prompt = match get_str(fs, "prompt") {
                Some(x) => x,
                None => {
                    return None;
                },
            };
            let system_prompt = match get_nullable_str(fs, "system_prompt") {
                Some(o) => o,
                None => {
                    return None;
                },
            };
            let worktree_path = match get_str(fs, "worktree_path") {
                Some(x) => x,
                None => {
                    return None;
                },
            };
            let tmux_pane = match get_nullable_str(fs, "tmux_pane") {
                Some(o) => o,
                None => {
                    return None;
                },
            };
            let pid = match get_nullable_u32(fs, "pid") {
                Some(o) => o,
                None => {
                    return None;
                },
            };
            let claude_session_id = match get_nullable_str(fs, "claude_session_id") {
                Some(o) => o,
                None => {
                    return None;
                },
            };
            let output_file = match get_str(fs, "output_file") {
                Some(x) => x,
                None => {
                    return None;
                },
            };
            let result = match obj_get(fs, "result") {
                Some(rv) => match rv {
                    JsonVal::Null => None,
                    _ => match agentresult_from_json(rv) {
                        Some(x) => Some(x),
                        None => {
                            return None;
                        },
                    },
                },
                None => {
                    return None;
                },
            };
            let created_at = match get_str(fs, "created_at") {
                Some(x) => x,
                None => {
                    return None;
                },
            };
            let completed_at = match get_nullable_str(fs, "completed_at") {
                Some(o) => o,
                None => {
                    return None;
                },
            };
            Some(
                Agent {
                    id,
                    parent_session,
                    name,
                    mode,
                    status,
                    template,
                    prompt,
                    system_prompt,
                    worktree_path,
                    tmux_pane,
                    pid,
                    claude_session_id,
                    output_file,
                    result,
                    created_at,
                    completed_at,
                },
            )
        },
        _ => {
            proof {
                lemma_jv_shape(*v);
            }
            None
        },
    }
}

pub fn agent_to_json(x: &Agent) -> (r: JsonVal)
    ensures
        agent_matches(*x, jv(r)),
        agent_decodable(jv(r)),
{
    let mut fs: Vec<JsonField> = Vec::new();
    push_field(&mut fs, "id", JsonVal::Str(ids::uuid_string(x.id)));
    push_field(&mut fs, "parent_session", JsonVal::Str(ids::uuid_string(x.parent_session)));
    push_str_field(&mut fs, "name", x.name.as_str());
    push_field(&mut fs, "mode", mode_to_json(&x.mode));
    push_field(&mut fs, "status", agent_status_to_json(&x.status));
    push_nullable_str_field(&mut fs, "template", &x.template);
    push_str_field(&mut fs, "prompt", x.prompt.as_str());
    push_nullable_str_field(&mut fs, "system_prompt", &x.system_prompt);
    push_str_field(&mut fs, "worktree_path", x.worktree_path.as_str());
    push_nullable_str_field(&mut fs, "tmux_pane", &x.tmux_pane);
    push_nullable_u32_field(&mut fs, "pid", &x.pid);
    push_nullable_str_field(&mut fs, "claude_session_id", &x.claude_session_id);
    push_str_field(&mut fs, "output_file", x.output_file.as_str());
    match &x.result {
        Some(res) => push_field(&mut fs, "result", agentresult_to_json(res)),
        None => push_field(&mut fs, "result", JsonVal::Null),
    }
    push_str_field(&mut fs, "created_at", x.created_at.as_str());
    push_nullable_str_field(&mut fs, "completed_at", &x.completed_at);
    let r = JsonVal::Obj(fs);
    proof {
        let jfs = jv_fields(r->Obj_0@);
        reveal_strlit("id");
        reveal_strlit("parent_session");
        reveal_strlit("name");
        reveal_strlit("mode");
        reveal_strlit("status");
        reveal_strlit("template");
        reveal_strlit("prompt");
        reveal_strlit("system_prompt");
        reveal_strlit("worktree_path");
        reveal_strlit("tmux_pane");
        reveal_strlit("pid");
        reveal_strlit("claude_session_id");
        reveal_strlit("output_file");
        reveal_strlit("result");
        reveal_strlit("created_at");
        reveal_strlit("completed_at");
        assert("id"@.len() == 2);
        assert("parent_session"@.len() == 14);
        assert("name"@.len() == 4);
        assert("mode"@.len() == 4);
        assert("status"@.len() == 6);
        assert("template"@.len() == 8);
        assert("prompt"@.len() == 6);
        assert("system_prompt"@.len() == 13);
        assert("worktree_path"@.len() == 13);
        assert("tmux_pane"@.len() == 9);
        assert("pid"@.len() == 3);
        assert("claude_session_id"@.len() == 17);
        assert("output_file"@.len() == 11);
        assert("result"@.len() == 6);
        assert("created_at"@.len() == 10);
        assert("completed_at"@.len() == 12);
        assert("name"@[0] != "mode"@[0]);
        assert("status"@[0] != "prompt"@[0]);
        assert("status"@[0] != "result"@[0]);
        assert("prompt"@[0] != "result"@[0]);
        assert("system_prompt"@[0] != "worktree_path"@[0]);
        assert(r->Obj_0@.len() == 16);
        crate::json::lemma_jv_fields_index(r->Obj_0@, 0);
        crate::json::lemma_jv_fields_index(r->Obj_0@, 1);
        crate::json::lemma_jv_fields_index(r->Obj_0@, 2);
        crate::json::lemma_jv_fields_index(r->Obj_0@, 3);
        crate::json::lemma_jv_fields_index(r->Obj_0@, 4);
        crate::json::lemma_jv_fields_index(r->Obj_0@, 5);
        crate::json::lemma_jv_fields_index(r->Obj_0@, 6);
        crate::json::lemma_jv_fields_index(r->Obj_0@, 7);
        crate::json::lemma_jv_fields_index(r->Obj_0@, 8);
        crate::json::lemma_jv_fields_index(r->Obj_0@, 9);
        crate::json::lemma_jv_fields_index(r->Obj_0@, 10);
        crate::json::lemma_jv_fields_index(r->Obj_0@, 11);
        crate::json::lemma_jv_fields_index(r->Obj_0@, 12);
        crate::json::lemma_jv_fields_index(r->Obj_0@, 13);
        crate::json::lemma_jv_fields_index(r->Obj_0@, 14);
        crate::json::lemma_jv_fields_index(r->Obj_0@, 15);
        crate::json::lemma_obj_lookup_at(jfs, "id"@, 0);
        crate::json::lemma_obj_lookup_at(jfs, "parent_session"@, 1);
        crate::json::lemma_obj_lookup_at(jfs, "name"@, 2);
        crate::json::lemma_obj_lookup_at(jfs, "mode"@, 3);
        crate::json::lemma_obj_lookup_at(jfs, "status"@, 4);
        crate::json::lemma_obj_lookup_at(jfs, "template"@, 5);
        crate::json::lemma_obj_lookup_at(jfs, "prompt"@, 6);
        crate::json::lemma_obj_lookup_at(jfs, "system_prompt"@, 7);
        crate::json::lemma_obj_lookup_at(jfs, "worktree_path"@, 8);
        crate::json::lemma_obj_lookup_at(jfs, "tmux_pane"@, 9);
        crate::json::lemma_obj_lookup_at(jfs, "pid"@, 10);
        crate::json::lemma_obj_lookup_at(jfs, "claude_session_id"@, 11);
        crate::json::lemma_obj_lookup_at(jfs, "output_file"@, 12);
        crate::json::lemma_obj_lookup_at(jfs, "result"@, 13);
        crate::json::lemma_obj_lookup_at(jfs, "created_at"@, 14);
        crate::json::lemma_obj_lookup_at(jfs, "completed_at"@, 15);
    }
    r
}


/// Every element is a decodable session.
pub open spec fn all_sessions_decodable(items: Seq<JVal>) -> bool {
    forall|i: int| 0 <= i < items.len() ==> session_decodable(#[trigger] items[i])
}

/// The elements are exactly the document forms of the sessions.
pub open spec fn all_sessions_match(xs: Seq<Session>, items: Seq<JVal>) -> bool {
    items.len() == xs.len() && forall|i: int|
        0 <= i < xs.len() ==> session_matches(xs[i], #[trigger] items[i])
}

/// Every element is a decodable agent.
pub open spec fn all_agents_decodable(items: Seq<JVal>) -> bool {
    forall|i: int| 0 <= i < items.len() ==> agent_decodable(#[trigger] items[i])
}

/// The elements are exactly the document forms of the agents.
pub open spec fn all_agents_match(xs: Seq<Agent>, items: Seq<JVal>) -> bool {
    items.len() == xs.len() && forall|i: int|
        0 <= i < xs.len() ==> agent_matches(xs[i], #[trigger] items[i])
}

/// Decodes a session array.
pub fn sessions_from_json(items: &Vec<JsonVal>) -> (r: Option<Vec<Session>>)
    ensures
        (r is Some) == all_sessions_decodable(jv_list(items@)),
        r matches Some(v) ==> all_sessions_match(v@, jv_list(items@)),
{
    let mut out: Vec<Session> = Vec::new();
    let mut i: usize = 0;
    proof {
        lemma_jv_list_len(items@);
    }
    while i < items.len()
        invariant
            0 <= i <= items@.len(),
            out@.len() == i,
            jv_list(items@).len() == items@.len(),
            forall|j: int|
                0 <= j < i ==> session_decodable(#[trigger] jv_list(items@)[j]) && session_matches(
                    out@[j],
                    jv_list(items@)[j],
                ),
        decreases items@.len() - i,
    {
        proof {
            lemma_jv_list_index(items@, i as int);
        }
        match session_from_json(&items[i]) {
            Some(x) => {
                out.push(x);
            },
            None => {
                return None;
            },
        }
        i = i + 1;
    }
    Some(out)
}

/// Encodes a session array.
pub fn sessions_to_json(xs: &Vec<Session>) -> (r: JsonVal)
    ensures
        jv(r) matches JVal::Arr(items) && all_sessions_match(xs@, items) && all_sessions_decodable(
            items,
        ),
{
    let mut out: Vec<JsonVal> = Vec::new();
    let mut i: usize = 0;
    proof {
        lemma_jv_list_len(out@);
    }
    while i < xs.len()
        invariant
            0 <= i <= xs@.len(),
            out@.len() == i,
            jv_list(out@).len() == i,
            forall|j: int|
                0 <= j < i ==> session_matches(xs@[j], #[trigger] jv_list(out@)[j])
                    && session_decodable(jv_list(out@)[j]),
        decreases xs@.len() - i,
    {
        let ghost prev = out@;
        let e = session_to_json(&xs[i]);
        proof {
            crate::json::lemma_jv_list_push(prev, e);
        }
        out.push(e);
        proof {
            assert(jv_list(out@) =~~= jv_list(prev).push(jv(e)));
            lemma_jv_list_len(out@);
        }
        i = i + 1;
    }
    JsonVal::Arr(out)
}

/// Decodes an agent array.
pub fn agents_from_json(items: &Vec<JsonVal>) -> (r: Option<Vec<Agent>>)
    ensures
        (r is Some) == all_agents_decodable(jv_list(items@)),
        r matches Some(v) ==> all_agents_match(v@, jv_list(items@)),
{
    let mut out: Vec<Agent> = Vec::new();
    let mut i: usize = 0;
    proof {
        lemma_jv_list_len(items@);
    }
    while i < items.len()
        invariant
            0 <= i <= items@.len(),
            out@.len() == i,
            jv_list(items@).len() == items@.len(),
            forall|j: int|
                0 <= j < i ==> agent_decodable(#[trigger] jv_list(items@)[j]) && agent_matches(
                    out@[j],
                    jv_list(items@)[j],
                ),
        decreases items@.len() - i,
    {
        proof {
            lemma_jv_list_index(items@, i as int);
        }
        match agent_from_json(&items[i]) {
            Some(x) => {
                out.push(x);
            },
            None => {
                return None;
            },
        }
        i = i + 1;
    }
    Some(out)
}

/// Encodes an agent array.
pub fn agents_to_json(xs: &Vec<Agent>) -> (r: JsonVal)
    ensures
        jv(r) matches JVal::Arr(items) && all_agents_match(xs@, items) && all_agents_decodable(
            items,
        ),
{
    let mut out: Vec<JsonVal> = Vec::new();
    let mut i: usize = 0;
    proof {
        lemma_jv_list_len(out@);
    }
    while i < xs.len()
        invariant
            0 <= i <= xs@.len(),
            out@.len() == i,
            jv_list(out@).len() == i,
            forall|j: int|
                0 <= j < i ==> agent_matches(xs@[j], #[trigger] jv_list(out@)[j])
                    && agent_decodable(jv_list(out@)[j]),
        decreases xs@.len() - i,
    {
        let ghost prev = out@;
        let e = agent_to_json(&xs[i]);
        proof {
            crate::json::lemma_jv_list_push(prev, e);
        }
        out.push(e);
        proof {
            assert(jv_list(out@) =~~= jv_list(prev).push(jv(e)));
            lemma_jv_list_len(out@);
        }
        i = i + 1;
    }
    JsonVal::Arr(out)
}

/// The aggregate persisted document.
pub open spec fn state_matches(x: WorkspaceState, v: JVal) -> bool {
    v matches JVal::Obj(fs) && {
        &&& (obj_lookup(fs, "workspace"@) matches Some(wv) && workspace_matches(x.workspace, wv))
        &&& (obj_lookup(fs, "sessions"@) matches Some(sv) && sv matches JVal::Arr(items)
            && all_sessions_match(x.sessions@, items))
        &&& (obj_lookup(fs, "agents"@) matches Some(av) && av matches JVal::Arr(items)
            && all_agents_match(x.agents@, items))
        &&& str_field(obj_lookup(fs, "tmux_session_name"@), x.tmux_session_name@)
    }
}

pub open spec fn state_decodable(v: JVal) -> bool {
    v matches JVal::Obj(fs) && {
        &&& (obj_lookup(fs, "workspace"@) matches Some(wv) && workspace_decodable(wv))
        &&& (obj_lookup(fs, "sessions"@) matches Some(sv) && sv matches JVal::Arr(items)
            && all_sessions_decodable(items))
        &&& (obj_lookup(fs, "agents"@) matches Some(av) && av matches JVal::Arr(items)
            && all_agents_decodable(items))
        &&& obj_lookup(fs, "tmux_session_name"@) matches Some(JVal::Str(_))
    }
}

pub fn state_from_json(v: &JsonVal) -> (r: Option<WorkspaceState>)
    ensures
        (r is Some) == state_decodable(jv(*v)),
        r matches Some(x) ==> state_matches(x, jv(*v)),
{
    match v {
        JsonVal::Obj(fs) => {
            let workspace = match obj_get(fs, "workspace") {
                Some(wv) => match workspace_from_json(wv) {
                    Some(w) => w,
                    None => {
                        return None;
                    },
                },
                None => {
                    return None;
                },
            };
            let sessions = match obj_get(fs, "sessions") {
                Some(sv) => match sv {
                    JsonVal::Arr(items) => {
                        proof {
                            lemma_jv_list_len(items@);
                            assert(jv(*sv) == JVal::Arr(jv_list(items@)));
                        }
                        match sessions_from_json(items) {
                            Some(xs) => xs,
                            None => {
                                return None;
                            },
                        }
                    },
                    _ => {
                        proof {
                            lemma_jv_shape(*sv);
                        }
                        return None;
                    },
                },
                None => {
                    return None;
                },
            };
            let agents = match obj_get(fs, "agents") {
                Some(av) => match av {
                    JsonVal::Arr(items) => {
                        proof {
                            lemma_jv_list_len(items@);
                            assert(jv(*av) == JVal::Arr(jv_list(items@)));
                        }
                        match agents_from_json(items) {
                            Some(xs) => xs,
                            None => {
                                return None;
                            },
                        }
                    },
                    _ => {
                        proof {
                            lemma_jv_shape(*av);
                        }
                        return None;
                    },
                },
                None => {
                    return None;
                },
            };
            let tmux_session_name = match get_str(fs, "tmux_session_name") {
                Some(x) => x,
                None => {
                    return None;
                },
            };
            Some(WorkspaceState { workspace, sessions, agents, tmux_session_name })
        },
        _ => {
            proof {
                lemma_jv_shape(*v);
            }
            None
        },
    }
}

pub fn state_to_json(x: &WorkspaceState) -> (r: JsonVal)
    ensures
        state_matches(*x, jv(r)),
        state_decodable(jv(r)),
{
    let mut fs: Vec<JsonField> = Vec::new();
    push_field(&mut fs, "workspace", workspace_to_json(&x.workspace));
    push_field(&mut fs, "sessions", sessions_to_json(&x.sessions));
    push_field(&mut fs, "agents", agents_to_json(&x.agents));
    push_str_field(&mut fs, "tmux_session_name", x.tmux_session_name.as_str());
    let r = JsonVal::Obj(fs);
    proof {
        let jfs = jv_fields(r->Obj_0@);
        reveal_strlit("workspace");
        reveal_strlit("sessions");
        reveal_strlit("agents");
        reveal_strlit("tmux_session_name");
        assert("workspace"@.len() == 9);
        assert("sessions"@.len() == 8);
        assert("agents"@.len() == 6);
        assert("tmux_session_name"@.len() == 17);
        assert(r->Obj_0@.len() == 4);
        crate::json::lemma_jv_fields_index(r->Obj_0@, 0);
        crate::json::lemma_jv_fields_index(r->Obj_0@, 1);
        crate::json::lemma_jv_fields_index(r->Obj_0@, 2);
        crate::json::lemma_jv_fields_index(r->Obj_0@, 3);
        crate::json::lemma_obj_lookup_at(jfs, "workspace"@, 0);
        crate::json::lemma_obj_lookup_at(jfs, "sessions"@, 1);
        crate::json::lemma_obj_lookup_at(jfs, "agents"@, 2);
        crate::json::lemma_obj_lookup_at(jfs, "tmux_session_name"@, 3);
    }
    r
}

/// The text prints a document that is exactly the state's document form.
pub open spec fn encodes_state(st: WorkspaceState, text: Seq<char>) -> bool {
    exists|j: JVal|
        #![auto]
        state_matches(st, j) && state_decodable(j) && text == crate::json::json_text(j)
}

/// Renders the aggregate state as the canonical document text.
pub fn encode_state(x: &WorkspaceState) -> (r: String)
    ensures
        encodes_state(*x, r@),
{
    let doc = state_to_json(x);
    let out = crate::json::json_to_string(&doc);
    proof {
        assert(state_matches(*x, jv(doc)) && state_decodable(jv(doc)) && out@
            == crate::json::json_text(jv(doc)));
    }
    out
}

/// Parses the document text and decodes the aggregate state. A text that is
/// not valid JSON, or a document that does not fit the schema, is a fatal
/// state error.
pub fn decode_state(text: &str) -> (r: Result<WorkspaceState, crate::error::VibeError>)
    ensures
        (r is Ok) == (crate::json::json_of(text@) matches Some(j) && state_decodable(j)),
        r matches Ok(st) ==> crate::json::json_of(text@) matches Some(j) && state_matches(st, j),
        r matches Err(e) ==> e is State,
{
    match crate::json::parse_json(text) {
        Some(doc) => match state_from_json(&doc) {
            Some(st) => Ok(st),
            None => Err(
                crate::error::VibeError::State(
                    "the persisted document does not fit the workspace schema".to_owned(),
                ),
            ),
        },
        None => Err(
            crate::error::VibeError::State("the persisted document is not valid JSON".to_owned()),
        ),
    }
}

} // verus!
