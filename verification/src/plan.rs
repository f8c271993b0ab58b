//! Plans: shared markdown documents with a TOML frontmatter, named after a
//! slug of their title.

use vstd::prelude::*;
use crate::error::VibeError;
use crate::frontmatter::{TomlValV, fm_lookup, toml_fm_of, parse_toml_frontmatter, fm_text};
use crate::ids;
use crate::strutil;
use crate::strutil::{find_at, lower_of, is_alnum_char, split_seq, seq_join, ltrimmed,
    starts_with_seq, contains_seq, matches_at, lex_le};
use vstd::string::StrSliceExecFns;
use vstd::string::StringExecFns;

verus! {

/// The lifecycle of a plan document.
#[derive(Debug, Clone, PartialEq)]
pub enum PlanStatus {
    Draft,
    Active,
    Completed,
    Superseded,
}

impl PlanStatus {
    /// The label used in command output and in the persisted frontmatter.
    pub fn text(&self) -> (r: String)
        ensures
            self is Draft ==> r@ == "Draft"@,
            self is Active ==> r@ == "Active"@,
            self is Completed ==> r@ == "Completed"@,
            self is Superseded ==> r@ == "Superseded"@,
    {
        match self {
            PlanStatus::Draft => "Draft".to_owned(),
            PlanStatus::Active => "Active".to_owned(),
            PlanStatus::Completed => "Completed".to_owned(),
            PlanStatus::Superseded => "Superseded".to_owned(),
        }
    }
}

/// The status label a frontmatter gets when it names none.
pub fn default_status() -> (r: String)
    ensures
        r@ == "Draft"@,
{
    "Draft".to_owned()
}

/// A shared plan document.
#[derive(Debug, Clone, PartialEq)]
pub struct Plan {
    pub id: u128,
    pub title: String,
    pub session_name: Option<String>,
    pub file_path: String,
    pub status: PlanStatus,
    pub created_at: String,
    pub updated_at: String,
}

/// The title with every character that is not alphanumeric replaced by a
/// dash.
pub open spec fn dashified(s: Seq<char>) -> Seq<char> {
    Seq::new(s.len(), |i: int| if is_alnum_char(s[i]) { s[i] } else { '-' })
}

/// The slug of a title: lowercase it, dash everything that is not
/// alphanumeric, and join the non-empty runs with single dashes.
pub open spec fn slug_of(title: Seq<char>) -> Seq<char> {
    seq_join(split_seq(dashified(lower_of(title)), '-').filter(|p: Seq<char>| p.len() > 0), seq!['-'])
}

/// Builds the URL-friendly slug of a title.
pub fn slug_from_title(title: &str) -> (r: String)
    ensures
        r@ == slug_of(title@),
{
    let low = crate::strutil::lowercase(title);
    let n = low.as_str().unicode_len();
    let mut dash = String::new();
    let mut i: usize = 0;
    while i < n
        invariant
            n == low@.len(),
            0 <= i <= n,
            dash@.len() == i,
            forall|j: int| 0 <= j < i ==> #[trigger] dash@[j] == dashified(low@)[j],
        decreases n - i,
    {
        let c = low.as_str().get_char(i);
        if strutil::char_alnum(c) {
            strutil::push_char(&mut dash, c);
        } else {
            strutil::push_char(&mut dash, '-');
        }
        i = i + 1;
    }
    proof {
        assert(dash@ =~= dashified(low@));
    }
    let pieces = strutil::split_char(dash.as_str(), '-');
    let ghost pieces_model = split_seq(dashified(low@), '-');

    // keep the non-empty runs, moving them out of the split
    let mut src = pieces;
    let ghost all = src.deep_view();
    let total = src.len();
    let mut kept: Vec<String> = Vec::new();
    let mut k: usize = 0;
    proof {
        assert(all.skip(0) =~= all);
        assert(kept.deep_view() =~= all.take(0).filter(|p: Seq<char>| p.len() > 0));
    }
    while src.len() > 0
        invariant
            all == pieces_model,
            all.len() == total,
            src@.len() == all.len() - k,
            0 <= k <= total,
            src.deep_view() =~= all.skip(k as int),
            kept.deep_view() =~= all.take(k as int).filter(|p: Seq<char>| p.len() > 0),
        decreases total - k,
    {
        proof {
            reveal(Seq::filter);
            assert(all.take(k + 1).drop_last() =~= all.take(k as int));
            assert(all.take(k + 1).last() == all[k as int]);
            assert(src.deep_view()[0] == all[k as int]);
        }
        let ghost pre_src = src@;
        let ghost pre_src_dv = src.deep_view();
        let piece = src.remove(0);
        proof {
            assert(piece@ == pre_src_dv[0]);
            assert forall|j: int|
                0 <= j < src.deep_view().len() implies (#[trigger] src.deep_view()[j]) == all.skip(
                k + 1,
            )[j] by {
                assert(src@[j] == pre_src[j + 1]);
                assert(src.deep_view()[j] == src@[j]@);
                assert(pre_src_dv[j + 1] == pre_src[j + 1]@);
                assert(pre_src_dv[j + 1] == all.skip(k as int)[j + 1]);
            }
            assert(src.deep_view() =~= all.skip(k + 1));
        }
        if piece.as_str().unicode_len() > 0 {
            let ghost pre_kept = kept.deep_view();
            kept.push(piece);
            proof {
                assert forall|j: int|
                    0 <= j < kept.deep_view().len() implies #[trigger] kept.deep_view()[j]
                    == pre_kept.push(all[k as int])[j] by {
                    if j < kept.deep_view().len() - 1 {
                        assert(kept@[j] == kept@.subrange(0, kept@.len() - 1)[j]);
                        assert(kept.deep_view()[j] == pre_kept[j]);
                    } else {
                        assert(kept.deep_view()[j] == kept@[j]@);
                    }
                }
                assert(kept.deep_view() =~= pre_kept.push(all[k as int]));
                assert(kept.deep_view() =~= all.take(k + 1).filter(|p: Seq<char>| p.len() > 0));
            }
        } else {
            proof {
                assert(kept.deep_view() =~= all.take(k + 1).filter(|p: Seq<char>| p.len() > 0));
            }
        }
        k = k + 1;
    }
    proof {
        assert(all.take(total as int) =~= all);
    }
    let joined = strutil::join_with(&kept, "-");
    proof {
        reveal_strlit("-");
        assert("-"@ =~= seq!['-']);
    }
    joined
}

impl Plan {
    /// A fresh draft plan whose file name derives from the slug of its
    /// title and the first characters of its identifier.
    pub fn new(title: String, session_name: Option<String>, plans_dir: &str) -> (r: Plan)
        ensures
            r.title@ == title@,
            r.session_name == session_name,
            r.status is Draft,
            r.file_path@ == plans_dir@ + "/"@ + slug_of(title@) + "-"@ + ids::uuid_chars(
                r.id,
            ).take(8) + ".md"@,
    {
        let id = ids::fresh_uuid();
        let slug = slug_from_title(title.as_str());
        let short = ids::short_id(id);
        let a = strutil::concat3(plans_dir, "/", slug.as_str());
        let b = strutil::concat3(a.as_str(), "-", short.as_str());
        let file_path = strutil::concat2(b.as_str(), ".md");
        let now = ids::now_stamp();
        let now2 = now.clone();
        Plan {
            id,
            title,
            session_name,
            file_path,
            status: PlanStatus::Draft,
            created_at: now,
            updated_at: now2,
        }
    }

    /// Renders the document: fenced frontmatter with quoted, escaped
    /// values, a blank line, then the body.
    pub fn file_content(&self, body: &str) -> (r: String)
        ensures
            r@ == "+++\nid = \""@ + ids::uuid_chars(self.id) + "\"\ntitle = \""@
                + crate::json::esc_json(self.title@) + "\"\n"@ + (match self.session_name {
                Some(sn) => "session_name = \""@ + crate::json::esc_json(sn@) + "\"\n"@,
                None => Seq::<char>::empty(),
            }) + "status = \""@ + (if self.status is Draft {
                "Draft"@
            } else if self.status is Active {
                "Active"@
            } else if self.status is Completed {
                "Completed"@
            } else {
                "Superseded"@
            }) + "\"\ncreated_at = \""@ + crate::json::esc_json(self.created_at@)
                + "\"\nupdated_at = \""@ + crate::json::esc_json(self.updated_at@) + "\"\n+++\n\n"@
                + body@,
    {
        let mut out = "+++\nid = \"".to_owned();
        let idt = ids::uuid_string(self.id);
        out.append(idt.as_str());
        out.append("\"\ntitle = \"");
        crate::json::write_escaped(self.title.as_str(), &mut out);
        out.append("\"\n");
        match &self.session_name {
            Some(sn) => {
                out.append("session_name = \"");
                crate::json::write_escaped(sn.as_str(), &mut out);
                out.append("\"\n");
            },
            None => (),
        }
        out.append("status = \"");
        let st = self.status.text();
        out.append(st.as_str());
        out.append("\"\ncreated_at = \"");
        crate::json::write_escaped(self.created_at.as_str(), &mut out);
        out.append("\"\nupdated_at = \"");
        crate::json::write_escaped(self.updated_at.as_str(), &mut out);
        out.append("\"\n+++\n\n");
        out.append(body);
        out
    }

    /// True when a document is a well-formed plan: it starts with a fence
    /// after leading white space, closes the fence, and carries a parseable
    /// frontmatter with an identifier and a title.
    pub open spec fn plan_decodable(content: Seq<char>) -> bool {
        let c = ltrimmed(content);
        starts_with_seq(c, "+++"@) && {
            let after = c.skip(3);
            find_at(after, "+++"@) >= 0 && {
                let fmtext = after.take(find_at(after, "+++"@));
                toml_fm_of(fmtext) matches Some(fm) && {
                    &&& (fm_lookup(fm, "id"@) matches Some(TomlValV::Text(t))
                        && ids::uuid_of_chars(t) is Some)
                    &&& fm_lookup(fm, "title"@) matches Some(TomlValV::Text(_))
                    &&& (match fm_lookup(fm, "session_name"@) {
                        None => true,
                        Some(v) => v is Text,
                    })
                    &&& (match fm_lookup(fm, "status"@) {
                        None => true,
                        Some(v) => v is Text,
                    })
                    &&& fm_lookup(fm, "created_at"@) matches Some(TomlValV::Text(_))
                    &&& fm_lookup(fm, "updated_at"@) matches Some(TomlValV::Text(_))
                }
            }
        }
    }

    /// Parses a plan document into its record and its body.
    pub fn parse(content: &str, path: &str) -> (r: Result<(Plan, String), VibeError>)
        ensures
            (r is Ok) == Plan::plan_decodable(content@),
            r matches Ok(p) ==> {
                let c = ltrimmed(content@);
                let after = c.skip(3);
                let fmtext = after.take(find_at(after, "+++"@));
                &&& p.0.file_path@ == path@
                &&& p.1@ == ltrimmed(after.skip(find_at(after, "+++"@) + 3))
                &&& toml_fm_of(fmtext) matches Some(fm) && {
                    &&& uuid_text_is(fm_lookup(fm, "id"@), p.0.id)
                    &&& fm_lookup(fm, "title"@) == Some(TomlValV::Text(p.0.title@))
                    &&& (match fm_lookup(fm, "session_name"@) {
                        Some(TomlValV::Text(t)) => p.0.session_name matches Some(x) && x@ == t,
                        _ => p.0.session_name is None,
                    })
                    &&& status_field_is(fm_lookup(fm, "status"@), p.0.status)
                    &&& fm_lookup(fm, "created_at"@) == Some(TomlValV::Text(p.0.created_at@))
                    &&& fm_lookup(fm, "updated_at"@) == Some(TomlValV::Text(p.0.updated_at@))
                }
            },
            r matches Err(e) ==> e is State,
    {
        let c = strutil::ltrim(content);
        if !strutil::str_starts_with(c.as_str(), "+++") {
            return Err(
                VibeError::State(strutil::concat2("Plan file missing frontmatter: ", path)),
            );
        }
        let cn = c.as_str().unicode_len();
        proof {
            reveal_strlit("+++");
        }
        let after = c.as_str().substring_char(3, cn);
        let close = match strutil::find_sub(after, "+++") {
            Some(i) => i,
            None => {
                return Err(
                    VibeError::State(strutil::concat2("Plan file missing closing +++: ", path)),
                );
            },
        };
        let an = after.unicode_len();
        proof {
            assert(matches_at(after@, "+++"@, close as int));
        }
        let fmtext = after.substring_char(0, close);
        let body_raw = after.substring_char(close + 3, an);
        let body = strutil::ltrim(body_raw);
        let fields = match parse_toml_frontmatter(fmtext) {
            Some(fs) => fs,
            None => {
                return Err(VibeError::State("Plan frontmatter is not a TOML table".to_owned()));
            },
        };
        let id = match fm_text(&fields, "id") {
            Some(t) => match ids::parse_uuid(t.as_str()) {
                Some(u) => u,
                None => {
                    return Err(
                        VibeError::State("Plan frontmatter has no usable identifier".to_owned()),
                    );
                },
            },
            None => {
                return Err(
                    VibeError::State("Plan frontmatter has no usable identifier".to_owned()),
                );
            },
        };
        let title = match fm_text(&fields, "title") {
            Some(t) => t,
            None => {
                return Err(VibeError::State("Plan frontmatter has no title".to_owned()));
            },
        };
        let session_name = match crate::frontmatter::fm_get(&fields, "session_name") {
            None => None,
            Some(v) => match v {
                crate::frontmatter::TomlVal::Text(t) => Some(t.clone()),
                _ => {
                    return Err(VibeError::State("Plan frontmatter is malformed".to_owned()));
                },
            },
        };
        let status = match crate::frontmatter::fm_get(&fields, "status") {
            None => PlanStatus::Draft,
            Some(v) => match v {
                crate::frontmatter::TomlVal::Text(t) => {
                    if strutil::str_eq(t.as_str(), "Active") {
                        PlanStatus::Active
                    } else if strutil::str_eq(t.as_str(), "Completed") {
                        PlanStatus::Completed
                    } else if strutil::str_eq(t.as_str(), "Superseded") {
                        PlanStatus::Superseded
                    } else {
                        PlanStatus::Draft
                    }
                },
                _ => {
                    return Err(VibeError::State("Plan frontmatter is malformed".to_owned()));
                },
            },
        };
        let created_at = match fm_text(&fields, "created_at") {
            Some(t) => t,
            None => {
                return Err(VibeError::State("Plan frontmatter has no timestamps".to_owned()));
            },
        };
        let updated_at = match fm_text(&fields, "updated_at") {
            Some(t) => t,
            None => {
                return Err(VibeError::State("Plan frontmatter has no timestamps".to_owned()));
            },
        };
        Ok(
            (
                Plan {
                    id,
                    title,
                    session_name,
                    file_path: path.to_owned(),
                    status,
                    created_at,
                    updated_at,
                },
                body,
            ),
        )
    }
}

/// A lookup holding the text form of this identifier.
pub open spec fn uuid_text_is(l: Option<TomlValV>, id: u128) -> bool {
    l matches Some(TomlValV::Text(t)) && ids::uuid_of_chars(t) == Some(id)
}

/// The status a status field decodes to: named states by their labels,
/// everything else is a draft.
pub open spec fn status_field_is(l: Option<TomlValV>, st: PlanStatus) -> bool {
    match l {
        None => st is Draft,
        Some(TomlValV::Text(t)) => if t == "Active"@ {
            st is Active
        } else if t == "Completed"@ {
            st is Completed
        } else if t == "Superseded"@ {
            st is Superseded
        } else {
            st is Draft
        },
        Some(_) => false,
    }
}

/// The body a fresh plan file starts with.
pub fn plan_body_skeleton(title: &str) -> (r: String)
    ensures
        r@ == "# "@ + title@ + "\n\n## Goals\n\n- \n\n## Steps\n\n1. \n"@,
{
    let a = strutil::concat3("# ", title, "\n\n## Goals\n\n- \n\n## Steps\n\n1. \n");
    a
}

/// Orders plans most recently updated first: stamps compare
/// lexicographically, which on same-format RFC 3339 stamps is their time
/// order. The result is a rearrangement of the input.
pub fn sort_plans_latest_first(plans: &mut Vec<Plan>)
    ensures
        final(plans)@.len() == old(plans)@.len(),
        final(plans)@.to_multiset() == old(plans)@.to_multiset(),
        forall|k1: int, k2: int|
            0 <= k1 < k2 < final(plans)@.len() ==> lex_le(
                final(plans)@[k2].updated_at@,
                final(plans)@[k1].updated_at@,
            ),
{
    let n = plans.len();
    let mut i: usize = 1;
    while i < n
        invariant
            n == plans@.len(),
            1 <= i || n == 0,
            0 <= i,
            plans@.to_multiset() == old(plans)@.to_multiset(),
            forall|k1: int, k2: int|
                0 <= k1 < k2 < i && k2 < n ==> lex_le(
                    plans@[k2].updated_at@,
                    plans@[k1].updated_at@,
                ),
        decreases n - i,
    {
        let ghost pre = plans@;
        let x = plans.remove(i);
        proof {
            pre.to_multiset_ensures();
            assert(plans@.to_multiset() == pre.to_multiset().remove(pre[i as int]));
        }
        let mut j: usize = 0;
        while j < i && strutil::str_le(x.updated_at.as_str(), plans[j].updated_at.as_str())
            invariant
                i < n,
                n == pre.len(),
                plans@.len() == n - 1,
                0 <= j <= i,
                forall|k: int| 0 <= k < j ==> lex_le(x.updated_at@, (#[trigger] plans@[k]).updated_at@),
            decreases i - j,
        {
            j = j + 1;
        }
        proof {
            if j < i {
                strutil::lemma_lex_total(x.updated_at@, plans@[j as int].updated_at@);
            }
        }
        let ghost mid = plans@;
        let ghost xg = x;
        plans.insert(j, x);
        proof {
            vstd::seq_lib::to_multiset_insert(mid, j as int, xg);
            assert(plans@.to_multiset() =~= pre.to_multiset());
            // the removed prefix is the sorted entry prefix
            assert(forall|k: int| 0 <= k < i ==> #[trigger] mid[k] == pre[k]);
            assert forall|k1: int, k2: int|
                0 <= k1 < k2 < i + 1 && k2 < n implies lex_le(
                plans@[k2].updated_at@,
                plans@[k1].updated_at@,
            ) by {
                if k2 < j {
                    assert(plans@[k1] == mid[k1] && plans@[k2] == mid[k2]);
                } else if k2 == j {
                    if k1 < j {
                        assert(plans@[k1] == mid[k1]);
                        assert(plans@[j as int] == xg);
                        assert(lex_le(xg.updated_at@, mid[k1].updated_at@));
                    }
                } else {
                    assert(plans@[k2] == mid[k2 - 1]);
                    if k1 < j {
                        assert(plans@[k1] == mid[k1]);
                        assert(lex_le(pre[k2 - 1].updated_at@, pre[k1].updated_at@));
                    } else if k1 == j {
                        assert(plans@[k1] == xg);
                        assert(j < i);
                        assert(lex_le(mid[j as int].updated_at@, xg.updated_at@));
                        if k2 - 1 > j {
                            assert(lex_le(pre[k2 - 1].updated_at@, pre[j as int].updated_at@));
                            strutil::lemma_lex_trans(
                                pre[k2 - 1].updated_at@,
                                pre[j as int].updated_at@,
                                xg.updated_at@,
                            );
                        }
                    } else {
                        assert(plans@[k1] == mid[k1 - 1]);
                        assert(lex_le(pre[k2 - 1].updated_at@, pre[k1 - 1].updated_at@));
                    }
                }
            }
        }
        i = i + 1;
    }
}

/// True when the plan answers the query: its lowered title contains the
/// lowered query, or its identifier text starts with the query.
pub open spec fn plan_answers(p: Plan, query_lower: Seq<char>) -> bool {
    ||| contains_seq(lower_of(p.title@), query_lower)
    ||| starts_with_seq(ids::uuid_chars(p.id), query_lower)
}

/// Finds the first plan matching a query by lowered title or identifier
/// prefix.
pub fn find_plan(plans: &Vec<Plan>, query: &str) -> (r: Option<usize>)
    ensures
        match r {
            Some(i) => {
                &&& i < plans@.len()
                &&& plan_answers(plans@[i as int], lower_of(query@))
                &&& forall|j: int| 0 <= j < i ==> !plan_answers(plans@[j], lower_of(query@))
            },
            None => forall|j: int|
                0 <= j < plans@.len() ==> !plan_answers(plans@[j], lower_of(query@)),
        },
{
    let q = strutil::lowercase(query);
    let mut i: usize = 0;
    while i < plans.len()
        invariant
            q@ == lower_of(query@),
            0 <= i <= plans@.len(),
            forall|j: int| 0 <= j < i ==> !plan_answers(plans@[j], lower_of(query@)),
        decreases plans@.len() - i,
    {
        let lowered = strutil::lowercase(plans[i].title.as_str());
        let idt = ids::uuid_string(plans[i].id);
        if strutil::str_contains(lowered.as_str(), q.as_str()) || strutil::str_starts_with(
            idt.as_str(),
            q.as_str(),
        ) {
            return Some(i);
        }
        i = i + 1;
    }
    None
}

} // verus!
