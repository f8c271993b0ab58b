//! Agent templates: markdown documents with a TOML frontmatter between
//! `+++` fences, resolved from workspace files first and built-in templates
//! last.

use vstd::prelude::*;
use crate::domain::agent::AgentMode;
use crate::error::VibeError;
use crate::frontmatter::{TomlValV, fm_lookup, toml_fm_of, parse_toml_frontmatter, fm_text};
use crate::strutil;
use crate::strutil::{find_at, trimmed, matches_at};

verus! {

/// A parsed agent template.
#[derive(Debug, Clone, PartialEq)]
pub struct AgentTemplate {
    pub name: String,
    pub description: String,
    pub mode: AgentMode,
    pub system_prompt: String,
    pub allowed_tools: Vec<String>,
    pub disallowed_tools: Vec<String>,
    pub permission_mode: Option<String>,
}

/// The two parts between and after the first two `+++` fences, when the
/// document has them.
pub open spec fn fence_split(content: Seq<char>) -> Option<(Seq<char>, Seq<char>)> {
    let i1 = find_at(content, "+++"@);
    if i1 < 0 {
        None
    } else {
        let rest = content.skip(i1 + 3);
        let i2 = find_at(rest, "+++"@);
        if i2 < 0 {
            None
        } else {
            Some((rest.take(i2), rest.skip(i2 + 3)))
        }
    }
}

/// Splits a document at its first two fences.
pub fn split_fences(content: &str) -> (r: Option<(String, String)>)
    ensures
        match r {
            Some(p) => fence_split(content@) == Some((p.0@, p.1@)),
            None => fence_split(content@) is None,
        },
{
    let i1 = match strutil::find_sub(content, "+++") {
        Some(i) => i,
        None => {
            return None;
        },
    };
    let n = content.unicode_len();
    proof {
        reveal_strlit("+++");
        assert(matches_at(content@, "+++"@, i1 as int));
    }
    let rest = content.substring_char(i1 + 3, n);
    let i2 = match strutil::find_sub(rest, "+++") {
        Some(i) => i,
        None => {
            return None;
        },
    };
    let rn = rest.unicode_len();
    proof {
        assert(matches_at(rest@, "+++"@, i2 as int));
    }
    let mid = rest.substring_char(0, i2);
    let tail = rest.substring_char(i2 + 3, rn);
    proof {
        assert(mid@ =~= content@.skip(i1 + 3).take(i2 as int));
        assert(tail@ =~= content@.skip(i1 + 3).skip(i2 + 3));
    }
    Some((mid.to_owned(), tail.to_owned()))
}

/// A frontmatter key that must be absent or hold a text.
pub open spec fn text_or_absent(l: Option<TomlValV>) -> bool {
    match l {
        None => true,
        Some(v) => v is Text,
    }
}

/// A frontmatter key that must be absent or hold a list of texts.
pub open spec fn list_or_absent(l: Option<TomlValV>) -> bool {
    match l {
        None => true,
        Some(v) => v is List,
    }
}

/// True when a document is a well-formed template: fenced, with a parseable
/// frontmatter that has a text description, and whose optional keys have
/// the right shapes.
pub open spec fn template_decodable(content: Seq<char>) -> bool {
    fence_split(content) matches Some(p) && toml_fm_of(trimmed(p.0)) matches Some(fm) && {
        &&& fm_lookup(fm, "description"@) matches Some(TomlValV::Text(_))
        &&& text_or_absent(fm_lookup(fm, "mode"@))
        &&& text_or_absent(fm_lookup(fm, "permission_mode"@))
        &&& list_or_absent(fm_lookup(fm, "allowed_tools"@))
        &&& list_or_absent(fm_lookup(fm, "disallowed_tools"@))
    }
}

/// What a parsed template holds, given the document's parts.
pub open spec fn template_matches(t: AgentTemplate, name: Seq<char>, content: Seq<char>) -> bool {
    fence_split(content) matches Some(p) && toml_fm_of(trimmed(p.0)) matches Some(fm) && {
        &&& t.name@ == name
        &&& fm_lookup(fm, "description"@) == Some(TomlValV::Text(t.description@))
        &&& t.system_prompt@ == trimmed(p.1)
        &&& (t.mode is Interactive) == (fm_lookup(fm, "mode"@) == Some(
            TomlValV::Text("interactive"@),
        ))
        &&& !(t.mode is Shell)
        &&& (match fm_lookup(fm, "allowed_tools"@) {
            Some(TomlValV::List(l)) => t.allowed_tools.deep_view() == l,
            _ => t.allowed_tools.deep_view().len() == 0,
        })
        &&& (match fm_lookup(fm, "disallowed_tools"@) {
            Some(TomlValV::List(l)) => t.disallowed_tools.deep_view() == l,
            _ => t.disallowed_tools.deep_view().len() == 0,
        })
        &&& (match fm_lookup(fm, "permission_mode"@) {
            Some(TomlValV::Text(pm)) => t.permission_mode matches Some(x) && x@ == pm,
            _ => t.permission_mode is None,
        })
    }
}

impl AgentTemplate {
    /// Parses a template document: the frontmatter between the first two
    /// fences must be a TOML table with a text `description`; the trimmed
    /// remainder is the system prompt, and `mode = "interactive"` selects
    /// the interactive mode.
    pub fn parse(name: &str, content: &str) -> (r: Result<AgentTemplate, VibeError>)
        ensures
            (r is Ok) == template_decodable(content@),
            r matches Ok(t) ==> template_matches(t, name@, content@),
            r matches Err(e) ==> e is Template,
    {
        let parts = match split_fences(content) {
            Some(p) => p,
            None => {
                return Err(
                    VibeError::Template(
                        strutil::concat3(
                            "Template '",
                            name,
                            "' missing +++ frontmatter delimiters",
                        ),
                    ),
                );
            },
        };
        let fm_text_trimmed = strutil::trim(parts.0.as_str());
        let fields = match parse_toml_frontmatter(fm_text_trimmed.as_str()) {
            Some(fs) => fs,
            None => {
                return Err(
                    VibeError::Template(
                        strutil::concat3("Template '", name, "' frontmatter error"),
                    ),
                );
            },
        };
        let description = match fm_text(&fields, "description") {
            Some(d) => d,
            None => {
                return Err(
                    VibeError::Template(
                        strutil::concat3("Template '", name, "' frontmatter error"),
                    ),
                );
            },
        };
        let mode = match crate::frontmatter::fm_get(&fields, "mode") {
            None => AgentMode::Headless,
            Some(v) => match v {
                crate::frontmatter::TomlVal::Text(m) => {
                    if strutil::str_eq(m.as_str(), "interactive") {
                        AgentMode::Interactive
                    } else {
                        AgentMode::Headless
                    }
                },
                _ => {
                    return Err(
                        VibeError::Template(
                            strutil::concat3("Template '", name, "' frontmatter error"),
                        ),
                    );
                },
            },
        };
        let permission_mode = match crate::frontmatter::fm_get(&fields, "permission_mode") {
            None => None,
            Some(v) => match v {
                crate::frontmatter::TomlVal::Text(m) => Some(m.clone()),
                _ => {
                    return Err(
                        VibeError::Template(
                            strutil::concat3("Template '", name, "' frontmatter error"),
                        ),
                    );
                },
            },
        };
        let allowed_tools = match crate::frontmatter::fm_get(&fields, "allowed_tools") {
            None => Vec::new(),
            Some(v) => match v {
                crate::frontmatter::TomlVal::List(l) => l.clone(),
                _ => {
                    return Err(
                        VibeError::Template(
                            strutil::concat3("Template '", name, "' frontmatter error"),
                        ),
                    );
                },
            },
        };
        let disallowed_tools = match crate::frontmatter::fm_get(&fields, "disallowed_tools") {
            None => Vec::new(),
            Some(v) => match v {
                crate::frontmatter::TomlVal::List(l) => l.clone(),
                _ => {
                    return Err(
                        VibeError::Template(
                            strutil::concat3("Template '", name, "' frontmatter error"),
                        ),
                    );
                },
            },
        };
        let system_prompt = strutil::trim(parts.1.as_str());
        Ok(
            AgentTemplate {
                name: name.to_owned(),
                description,
                mode,
                system_prompt,
                allowed_tools,
                disallowed_tools,
                permission_mode,
            },
        )
    }

    /// Loads every template: workspace files first, then the built-ins,
    /// first name wins, unparseable documents are skipped. The result never
    /// holds two templates of one name, every name names a given file or a
    /// built-in, and every loadable name is present: the first well-formed
    /// file of each stem, and every built-in no well-formed file shadows.
    pub fn load_all(dir_files: &Vec<(String, String)>) -> (r: Vec<AgentTemplate>)
        ensures
            forall|i: int, j: int|
                0 <= i < j < r@.len() ==> (#[trigger] r@[i].name@) != (#[trigger] r@[j].name@),
            forall|k: int|
                0 <= k < r@.len() ==> known_template_name(dir_files@, (#[trigger] r@[k]).name@),
            forall|i: int|
                file_claims(dir_files@, i) ==> exists|k: int|
                    0 <= k < r@.len() && (#[trigger] r@[k]).name@ == dir_files@[i].0@,
            forall|name: Seq<char>|
                (#[trigger] builtin_doc_of(name)) matches Some(doc) && template_decodable(doc)
                    && builtin_unshadowed(dir_files@, name) ==> exists|k: int|
                    0 <= k < r@.len() && (#[trigger] r@[k]).name@ == name,
    {
        let mut out: Vec<AgentTemplate> = Vec::new();
        let mut seen: Vec<String> = Vec::new();
        let mut i: usize = 0;
        while i < dir_files.len()
            invariant
                0 <= i <= dir_files@.len(),
                seen.deep_view().len() == out@.len(),
                forall|k: int|
                    0 <= k < out@.len() ==> seen.deep_view()[k] == (#[trigger] out@[k]).name@,
                forall|k1: int, k2: int|
                    0 <= k1 < k2 < out@.len() ==> (#[trigger] out@[k1].name@)
                        != (#[trigger] out@[k2].name@),
                forall|k: int|
                    0 <= k < out@.len() ==> known_template_name(
                        dir_files@,
                        (#[trigger] out@[k]).name@,
                    ),
                forall|ip: int|
                    0 <= ip < i && file_claims(dir_files@, ip) ==> exists|k: int|
                        0 <= k < out@.len() && (#[trigger] out@[k]).name@ == dir_files@[ip].0@,
            decreases dir_files@.len() - i,
        {
            let stem = &dir_files[i].0;
            let already = strutil::vec_contains_str(&seen, stem.as_str());
            proof {
                if already {
                    let w = choose|w: int|
                        0 <= w < seen.deep_view().len() && seen.deep_view()[w] == stem@;
                    assert(out@[w].name@ == stem@);
                }
            }
            if !already {
                match AgentTemplate::parse(stem.as_str(), dir_files[i].1.as_str()) {
                    Ok(t) => {
                        let ghost pre_out = out@;
                        let ghost pre_seen = seen@;
                        let ghost pre_dv = seen.deep_view();
                        let tname = t.name.clone();
                        out.push(t);
                        seen.push(tname);
                        proof {
                            assert(out@ == pre_out.push(out@.last()));
                            assert(seen@ == pre_seen.push(seen@.last()));
                            assert(seen.deep_view().len() == seen@.len());
                            assert forall|k: int|
                                0 <= k < seen.deep_view().len() - 1 implies seen.deep_view()[k]
                                == pre_dv[k] by {
                                assert(seen@[k] == pre_seen[k]);
                                assert(seen.deep_view()[k] == seen@[k]@);
                                assert(pre_dv[k] == pre_seen[k]@);
                            }
                            assert(seen.deep_view().last() == seen@.last()@);
                            assert(seen@.last()@ == out@.last().name@);
                            assert forall|ip: int|
                                0 <= ip < i + 1 && file_claims(dir_files@, ip) implies exists|
                                k: int,
                            |
                                0 <= k < out@.len() && (#[trigger] out@[k]).name@
                                    == dir_files@[ip].0@ by {
                                if ip < i {
                                    let w = choose|w: int|
                                        0 <= w < pre_out.len() && (#[trigger] pre_out[w]).name@
                                            == dir_files@[ip].0@;
                                    assert(out@[w].name@ == dir_files@[ip].0@);
                                } else {
                                    assert(out@[out@.len() - 1].name@ == dir_files@[i as int].0@);
                                }
                            }
                        }
                    },
                    Err(_) => {
                        proof {
                            assert(!template_decodable(dir_files@[i as int].1@));
                        }
                    },
                }
            } else {
                proof {
                    assert forall|ip: int|
                        0 <= ip < i + 1 && file_claims(dir_files@, ip) implies exists|k: int|
                        0 <= k < out@.len() && (#[trigger] out@[k]).name@ == dir_files@[ip].0@ by {
                        if ip == i {
                            let w = choose|w: int|
                                0 <= w < seen.deep_view().len() && seen.deep_view()[w] == stem@;
                            assert(out@[w].name@ == dir_files@[i as int].0@);
                        }
                    }
                }
            }
            i = i + 1;
        }
        let builtins = builtin_templates();
        let mut b: usize = 0;
        while b < builtins.len()
            invariant
                0 <= b <= builtins@.len(),
                builtins@.len() == 5,
                builtins@[0].0@ == "planner"@,
                builtins@[1].0@ == "implementer"@,
                builtins@[2].0@ == "critic"@,
                builtins@[3].0@ == "tester"@,
                builtins@[4].0@ == "refactorer"@,
                builtins@[0].1@ == planner_doc(),
                builtins@[1].1@ == implementer_doc(),
                builtins@[2].1@ == critic_doc(),
                builtins@[3].1@ == tester_doc(),
                builtins@[4].1@ == refactorer_doc(),
                seen.deep_view().len() == out@.len(),
                forall|k: int|
                    0 <= k < out@.len() ==> seen.deep_view()[k] == (#[trigger] out@[k]).name@,
                forall|k1: int, k2: int|
                    0 <= k1 < k2 < out@.len() ==> (#[trigger] out@[k1].name@)
                        != (#[trigger] out@[k2].name@),
                forall|k: int|
                    0 <= k < out@.len() ==> known_template_name(
                        dir_files@,
                        (#[trigger] out@[k]).name@,
                    ),
                forall|ip: int|
                    file_claims(dir_files@, ip) ==> exists|k: int|
                        0 <= k < out@.len() && (#[trigger] out@[k]).name@ == dir_files@[ip].0@,
                forall|bp: int|
                    0 <= bp < b && template_decodable((#[trigger] builtins@[bp]).1@)
                        && builtin_unshadowed(dir_files@, builtins@[bp].0@) ==> exists|k: int|
                        0 <= k < out@.len() && (#[trigger] out@[k]).name@ == builtins@[bp].0@,
            decreases builtins@.len() - b,
        {
            let bname = &builtins[b].0;
            let already = strutil::vec_contains_str(&seen, bname.as_str());
            proof {
                if already {
                    let w = choose|w: int|
                        0 <= w < seen.deep_view().len() && seen.deep_view()[w] == bname@;
                    assert(out@[w].name@ == bname@);
                }
            }
            if !already {
                match AgentTemplate::parse(bname.as_str(), builtins[b].1.as_str()) {
                    Ok(t) => {
                        let ghost pre_out = out@;
                        let ghost pre_seen = seen@;
                        let ghost pre_dv = seen.deep_view();
                        let tname = t.name.clone();
                        out.push(t);
                        seen.push(tname);
                        proof {
                            assert(out@ == pre_out.push(out@.last()));
                            assert(seen@ == pre_seen.push(seen@.last()));
                            assert(seen.deep_view().len() == seen@.len());
                            assert forall|k: int|
                                0 <= k < seen.deep_view().len() - 1 implies seen.deep_view()[k]
                                == pre_dv[k] by {
                                assert(seen@[k] == pre_seen[k]);
                                assert(seen.deep_view()[k] == seen@[k]@);
                                assert(pre_dv[k] == pre_seen[k]@);
                            }
                            assert(seen.deep_view().last() == seen@.last()@);
                            assert(seen@.last()@ == out@.last().name@);
                            assert forall|ip: int|
                                file_claims(dir_files@, ip) implies exists|k: int|
                                0 <= k < out@.len() && (#[trigger] out@[k]).name@
                                    == dir_files@[ip].0@ by {
                                let w = choose|w: int|
                                    0 <= w < pre_out.len() && (#[trigger] pre_out[w]).name@
                                        == dir_files@[ip].0@;
                                assert(out@[w].name@ == dir_files@[ip].0@);
                            }
                            assert forall|bp: int|
                                0 <= bp < b + 1 && template_decodable(
                                    (#[trigger] builtins@[bp]).1@,
                                ) && builtin_unshadowed(dir_files@, builtins@[bp].0@) implies exists|
                                k: int,
                            |
                                0 <= k < out@.len() && (#[trigger] out@[k]).name@
                                    == builtins@[bp].0@ by {
                                if bp < b {
                                    let w = choose|w: int|
                                        0 <= w < pre_out.len() && (#[trigger] pre_out[w]).name@
                                            == builtins@[bp].0@;
                                    assert(out@[w].name@ == builtins@[bp].0@);
                                } else {
                                    assert(out@[out@.len() - 1].name@ == builtins@[b as int].0@);
                                }
                            }
                        }
                    },
                    Err(_) => {
                        proof {
                            assert(!template_decodable(builtins@[b as int].1@));
                        }
                    },
                }
            } else {
                proof {
                    assert forall|bp: int|
                        0 <= bp < b + 1 && template_decodable((#[trigger] builtins@[bp]).1@)
                            && builtin_unshadowed(dir_files@, builtins@[bp].0@) implies exists|
                        k: int,
                    |
                        0 <= k < out@.len() && (#[trigger] out@[k]).name@ == builtins@[bp].0@ by {
                        if bp == b {
                            let w = choose|w: int|
                                0 <= w < seen.deep_view().len() && seen.deep_view()[w] == bname@;
                            assert(out@[w].name@ == builtins@[b as int].0@);
                        }
                    }
                }
            }
            b = b + 1;
        }
        proof {
            assert forall|name: Seq<char>|
                (#[trigger] builtin_doc_of(name)) matches Some(doc) && template_decodable(doc)
                    && builtin_unshadowed(dir_files@, name) implies exists|k: int|
                0 <= k < out@.len() && (#[trigger] out@[k]).name@ == name by {
                if name == "planner"@ {
                    assert(template_decodable(builtins@[0].1@));
                } else if name == "implementer"@ {
                    assert(template_decodable(builtins@[1].1@));
                } else if name == "critic"@ {
                    assert(template_decodable(builtins@[2].1@));
                } else if name == "tester"@ {
                    assert(template_decodable(builtins@[3].1@));
                } else {
                    assert(name == "refactorer"@);
                    assert(template_decodable(builtins@[4].1@));
                }
            }
        }
        out
    }

    /// Loads one template by name: the first workspace file with that stem
    /// wins, then the built-in of that name; a name that neither the files
    /// nor the built-ins know is an error. When the chosen document is a
    /// well-formed template, success is owed and the result reads it.
    pub fn load(name: &str, dir_files: &Vec<(String, String)>) -> (r: Result<
        AgentTemplate,
        VibeError,
    >)
        ensures
            r matches Ok(t) ==> t.name@ == name@,
            r matches Err(e) ==> e is Template,
            !known_template_name(dir_files@, name@) ==> r is Err,
            match first_file_content(dir_files@, name@) {
                Some(doc) => (r is Ok) == template_decodable(doc) && (match r {
                    Ok(t) => template_matches(t, name@, doc),
                    Err(_) => true,
                }),
                None => match builtin_doc_of(name@) {
                    Some(doc) => (r is Ok) == template_decodable(doc) && (match r {
                        Ok(t) => template_matches(t, name@, doc),
                        Err(_) => true,
                    }),
                    None => r is Err,
                },
            },
    {
        let mut i: usize = 0;
        proof {
            assert(dir_files@.skip(0) =~= dir_files@);
        }
        while i < dir_files.len()
            invariant
                0 <= i <= dir_files@.len(),
                forall|j: int| 0 <= j < i ==> (#[trigger] dir_files@[j]).0@ != name@,
                first_file_content(dir_files@, name@) == first_file_content(
                    dir_files@.skip(i as int),
                    name@,
                ),
            decreases dir_files@.len() - i,
        {
            proof {
                assert(dir_files@.skip(i as int)[0] == dir_files@[i as int]);
                assert(dir_files@.skip(i as int).drop_first() =~= dir_files@.skip(i + 1));
            }
            if strutil::str_eq(dir_files[i].0.as_str(), name) {
                proof {
                    assert(first_file_content(dir_files@, name@) == Some(dir_files@[i as int].1@));
                }
                return AgentTemplate::parse(name, dir_files[i].1.as_str());
            }
            i = i + 1;
        }
        proof {
            assert(dir_files@.skip(dir_files@.len() as int).len() == 0);
            assert(first_file_content(dir_files@, name@) is None);
        }
        let builtins = builtin_templates();
        let mut b: usize = 0;
        while b < builtins.len()
            invariant
                0 <= b <= builtins@.len(),
                builtins@.len() == 5,
                builtins@[0].0@ == "planner"@,
                builtins@[1].0@ == "implementer"@,
                builtins@[2].0@ == "critic"@,
                builtins@[3].0@ == "tester"@,
                builtins@[4].0@ == "refactorer"@,
                builtins@[0].1@ == planner_doc(),
                builtins@[1].1@ == implementer_doc(),
                builtins@[2].1@ == critic_doc(),
                builtins@[3].1@ == tester_doc(),
                builtins@[4].1@ == refactorer_doc(),
                first_file_content(dir_files@, name@) is None,
                forall|j: int| 0 <= j < b ==> (#[trigger] builtins@[j]).0@ != name@,
            decreases builtins@.len() - b,
        {
            if strutil::str_eq(builtins[b].0.as_str(), name) {
                proof {
                    lemma_builtin_doc_table();
                    assert(builtin_doc_of(name@) == Some(builtins@[b as int].1@));
                }
                return AgentTemplate::parse(name, builtins[b].1.as_str());
            }
            b = b + 1;
        }
        proof {
            assert(builtin_doc_of(name@) is None);
        }
        Err(VibeError::Template(strutil::concat3("Template '", name, "' not found")))
    }
}

/// The first well-formed document of its stem among the given files: no
/// earlier file of the same stem parses.
pub open spec fn file_claims(dir_files: Seq<(String, String)>, i: int) -> bool {
    &&& 0 <= i < dir_files.len()
    &&& template_decodable(dir_files[i].1@)
    &&& forall|j: int|
        0 <= j < i && (#[trigger] dir_files[j]).0@ == dir_files[i].0@ ==> !template_decodable(
            dir_files[j].1@,
        )
}

/// No well-formed given file claims this name.
pub open spec fn builtin_unshadowed(dir_files: Seq<(String, String)>, name: Seq<char>) -> bool {
    forall|i: int|
        0 <= i < dir_files.len() ==> !((#[trigger] dir_files[i]).0@ == name && template_decodable(
            dir_files[i].1@,
        ))
}

/// A name that the inputs can produce: the stem of a given file, or one of
/// the built-in template names.
pub open spec fn known_template_name(dir_files: Seq<(String, String)>, name: Seq<char>) -> bool {
    ||| exists|i: int| 0 <= i < dir_files.len() && (#[trigger] dir_files[i]).0@ == name
    ||| name == "planner"@
    ||| name == "implementer"@
    ||| name == "critic"@
    ||| name == "tester"@
    ||| name == "refactorer"@
}


/// The planner built-in's document text.
pub open spec fn planner_doc() -> Seq<char> {
    "+++\ndescription = \"Breaks a task into a step-by-step implementation plan\"\nmode = \"headless\"\nallowed_tools = [\"Read\", \"Grep\", \"Glob\"]\n+++\n\nYou are a planning agent. Study the repository, then write a step-by-step implementation plan for the task you are given. Do not change any file; end with open questions.\n"@
}

/// The implementer built-in's document text.
pub open spec fn implementer_doc() -> Seq<char> {
    "+++\ndescription = \"Carries out a prepared implementation plan\"\nmode = \"headless\"\n+++\n\nYou are an implementation agent. Follow the plan you are given step by step, keep changes small, and run the tests after each step.\n"@
}

/// The critic built-in's document text.
pub open spec fn critic_doc() -> Seq<char> {
    "+++\ndescription = \"Examines a change for correctness and clarity\"\nmode = \"headless\"\nallowed_tools = [\"Read\", \"Grep\", \"Glob\"]\n+++\n\nYou are a critique agent. Read the change under examination and report defects, risks and unclear code, ordered by severity. Do not change any file.\n"@
}

/// The tester built-in's document text.
pub open spec fn tester_doc() -> Seq<char> {
    "+++\ndescription = \"Writes and runs tests for recent changes\"\nmode = \"headless\"\n+++\n\nYou are a testing agent. Find the behaviour the recent change introduces, write tests that pin it down, and run the full suite.\n"@
}

/// The refactorer built-in's document text.
pub open spec fn refactorer_doc() -> Seq<char> {
    "+++\ndescription = \"Improves structure without changing behaviour\"\nmode = \"headless\"\n+++\n\nYou are a refactoring agent. Improve naming, remove duplication and simplify control flow, keeping every test green and behaviour unchanged.\n"@
}

/// The document of the built-in with this name, when there is one.
pub open spec fn builtin_doc_of(name: Seq<char>) -> Option<Seq<char>> {
    if name == "planner"@ {
        Some(planner_doc())
    } else if name == "implementer"@ {
        Some(implementer_doc())
    } else if name == "critic"@ {
        Some(critic_doc())
    } else if name == "tester"@ {
        Some(tester_doc())
    } else if name == "refactorer"@ {
        Some(refactorer_doc())
    } else {
        None
    }
}

/// The five built-in names are pairwise distinct, so the document table
/// reads each name to its own document.
pub proof fn lemma_builtin_doc_table()
    ensures
        builtin_doc_of("planner"@) == Some(planner_doc()),
        builtin_doc_of("implementer"@) == Some(implementer_doc()),
        builtin_doc_of("critic"@) == Some(critic_doc()),
        builtin_doc_of("tester"@) == Some(tester_doc()),
        builtin_doc_of("refactorer"@) == Some(refactorer_doc()),
{
    reveal_strlit("planner");
    reveal_strlit("implementer");
    reveal_strlit("critic");
    reveal_strlit("tester");
    reveal_strlit("refactorer");
    assert("planner"@.len() == 7);
    assert("implementer"@.len() == 11);
    assert("critic"@.len() == 6);
    assert("tester"@.len() == 6);
    assert("refactorer"@.len() == 10);
    assert("critic"@[0] != "tester"@[0]);
}

/// The content of the first given file with this stem, when there is one.
pub open spec fn first_file_content(dir_files: Seq<(String, String)>, name: Seq<char>) -> Option<
    Seq<char>,
>
    decreases dir_files,
{
    if dir_files.len() == 0 {
        None
    } else if dir_files[0].0@ == name {
        Some(dir_files[0].1@)
    } else {
        first_file_content(dir_files.drop_first(), name)
    }
}

/// The built-in templates, lowest priority in resolution order.
pub fn builtin_templates() -> (r: Vec<(String, String)>)
    ensures
        r@.len() == 5,
        r@[0].0@ == "planner"@,
        r@[1].0@ == "implementer"@,
        r@[2].0@ == "critic"@,
        r@[3].0@ == "tester"@,
        r@[4].0@ == "refactorer"@,
        r@[0].1@ == planner_doc(),
        r@[1].1@ == implementer_doc(),
        r@[2].1@ == critic_doc(),
        r@[3].1@ == tester_doc(),
        r@[4].1@ == refactorer_doc(),
{
    let mut out: Vec<(String, String)> = Vec::new();
    out.push(
        (
            "planner".to_owned(),
            "+++\ndescription = \"Breaks a task into a step-by-step implementation plan\"\nmode = \"headless\"\nallowed_tools = [\"Read\", \"Grep\", \"Glob\"]\n+++\n\nYou are a planning agent. Study the repository, then write a step-by-step implementation plan for the task you are given. Do not change any file; end with open questions.\n".to_owned(),
        ),
    );
    out.push(
        (
            "implementer".to_owned(),
            "+++\ndescription = \"Carries out a prepared implementation plan\"\nmode = \"headless\"\n+++\n\nYou are an implementation agent. Follow the plan you are given step by step, keep changes small, and run the tests after each step.\n".to_owned(),
        ),
    );
    out.push(
        (
            "critic".to_owned(),
            "+++\ndescription = \"Examines a change for correctness and clarity\"\nmode = \"headless\"\nallowed_tools = [\"Read\", \"Grep\", \"Glob\"]\n+++\n\nYou are a critique agent. Read the change under examination and report defects, risks and unclear code, ordered by severity. Do not change any file.\n".to_owned(),
        ),
    );
    out.push(
        (
            "tester".to_owned(),
            "+++\ndescription = \"Writes and runs tests for recent changes\"\nmode = \"headless\"\n+++\n\nYou are a testing agent. Find the behaviour the recent change introduces, write tests that pin it down, and run the full suite.\n".to_owned(),
        ),
    );
    out.push(
        (
            "refactorer".to_owned(),
            "+++\ndescription = \"Improves structure without changing behaviour\"\nmode = \"headless\"\n+++\n\nYou are a refactoring agent. Improve naming, remove duplication and simplify control flow, keeping every test green and behaviour unchanged.\n".to_owned(),
        ),
    );
    out
}

} // verus!
