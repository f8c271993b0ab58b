//! Pull-request data: identifying a request from a number or URL, and
//! reading the request tool's JSON description of one.

use vstd::prelude::*;
use crate::error::VibeError;
use crate::json::{JsonVal, JVal, jv, jv_list, obj_lookup, lemma_jv_list_len,
    lemma_jv_list_index};
use crate::codec::{get_str, get_u64};
use crate::strutil;
use crate::strutil::{all_digits, digits_val, split_seq};

verus! {

/// True when the text is a plain decimal number that fits.
pub open spec fn numeric_id(s: Seq<char>) -> bool {
    all_digits(s) && s.len() >= 1 && digits_val(s) <= u64::MAX
}

/// Parses a pull-request identifier: a plain number, or the trailing path
/// segment of a URL.
pub fn parse_pr_identifier(pr: &str) -> (r: Result<u64, VibeError>)
    ensures
        numeric_id(pr@) ==> r == Ok::<u64, VibeError>(digits_val(pr@) as u64),
        !numeric_id(pr@) && numeric_id(split_seq(pr@, '/').last()) ==> r == Ok::<u64, VibeError>(
            digits_val(split_seq(pr@, '/').last()) as u64,
        ),
        !numeric_id(pr@) && !numeric_id(split_seq(pr@, '/').last()) ==> (r matches Err(e) && e
            is User),
{
    match strutil::parse_u64(pr) {
        Some(n) => Ok(n),
        None => {
            let segments = strutil::split_char(pr, '/');
            proof {
                assert(split_seq(pr@, '/').len() > 0);
                assert(segments@.len() == segments.deep_view().len());
            }
            let last = &segments[segments.len() - 1];
            proof {
                assert(last@ == split_seq(pr@, '/').last());
            }
            match strutil::parse_u64(last.as_str()) {
                Some(n) => Ok(n),
                None => Err(
                    VibeError::User(
                        strutil::concat3(
                            "Cannot parse PR identifier: '",
                            pr,
                            "'. Use a PR number or URL.",
                        ),
                    ),
                ),
            }
        },
    }
}

/// One changed file of a pull request.
#[derive(Debug, Clone, PartialEq)]
pub struct PrFile {
    pub path: String,
    pub additions: u64,
    pub deletions: u64,
}

/// The metadata of a pull request as the request tool reports it.
#[derive(Debug, Clone, PartialEq)]
pub struct PrInfo {
    pub number: u64,
    pub title: String,
    pub body: String,
    pub head_ref_name: String,
    pub base_ref_name: String,
    pub url: String,
    pub additions: u64,
    pub deletions: u64,
    pub files: Vec<PrFile>,
}

/// A count field defaulting to zero when missing.
pub open spec fn count_or_zero(l: Option<JVal>, n: u64) -> bool {
    match l {
        None => n == 0,
        Some(v) => v == JVal::UNum(n),
    }
}

pub open spec fn count_or_zero_ok(l: Option<JVal>) -> bool {
    match l {
        None => true,
        Some(v) => v is UNum,
    }
}

/// A text field defaulting to empty when missing.
pub open spec fn text_or_empty(l: Option<JVal>, s: Seq<char>) -> bool {
    match l {
        None => s.len() == 0,
        Some(v) => v == JVal::Str(s),
    }
}

pub open spec fn text_or_empty_ok(l: Option<JVal>) -> bool {
    match l {
        None => true,
        Some(v) => v is Str,
    }
}

pub open spec fn prfile_matches(x: PrFile, v: JVal) -> bool {
    v matches JVal::Obj(fs) && {
        &&& obj_lookup(fs, "path"@) == Some(JVal::Str(x.path@))
        &&& count_or_zero(obj_lookup(fs, "additions"@), x.additions)
        &&& count_or_zero(obj_lookup(fs, "deletions"@), x.deletions)
    }
}

pub open spec fn prfile_decodable(v: JVal) -> bool {
    v matches JVal::Obj(fs) && {
        &&& obj_lookup(fs, "path"@) matches Some(JVal::Str(_))
        &&& count_or_zero_ok(obj_lookup(fs, "additions"@))
        &&& count_or_zero_ok(obj_lookup(fs, "deletions"@))
    }
}

pub fn prfile_from_json(v: &JsonVal) -> (r: Option<PrFile>)
    ensures
        (r is Some) == prfile_decodable(jv(*v)),
        r matches Some(x) ==> prfile_matches(x, jv(*v)),
{
    match v {
        JsonVal::Obj(fs) => {
            let path = match get_str(fs, "path") {
                Some(x) => x,
                None => {
                    return None;
                },
            };
            let additions = match crate::json::obj_get(fs, "additions") {
                None => 0,
                Some(av) => match av {
                    JsonVal::UNum(n) => *n,
                    _ => {
                        proof {
                            crate::codec::lemma_jv_shape(*av);
                        }
                        return None;
                    },
                },
            };
            let deletions = match crate::json::obj_get(fs, "deletions") {
                None => 0,
                Some(dv) => match dv {
                    JsonVal::UNum(n) => *n,
                    _ => {
                        proof {
                            crate::codec::lemma_jv_shape(*dv);
                        }
                        return None;
                    },
                },
            };
            Some(PrFile { path, additions, deletions })
        },
        _ => {
            proof {
                crate::codec::lemma_jv_shape(*v);
            }
            None
        },
    }
}

/// Every element is a decodable changed file.
pub open spec fn all_prfiles_decodable(items: Seq<JVal>) -> bool {
    forall|i: int| 0 <= i < items.len() ==> prfile_decodable(#[trigger] items[i])
}

pub open spec fn all_prfiles_match(xs: Seq<PrFile>, items: Seq<JVal>) -> bool {
    items.len() == xs.len() && forall|i: int|
        0 <= i < xs.len() ==> prfile_matches(xs[i], #[trigger] items[i])
}

pub open spec fn prinfo_matches(x: PrInfo, v: JVal) -> bool {
    v matches JVal::Obj(fs) && {
        &&& obj_lookup(fs, "number"@) == Some(JVal::UNum(x.number))
        &&& obj_lookup(fs, "title"@) == Some(JVal::Str(x.title@))
        &&& text_or_empty(obj_lookup(fs, "body"@), x.body@)
        &&& obj_lookup(fs, "headRefName"@) == Some(JVal::Str(x.head_ref_name@))
        &&& obj_lookup(fs, "baseRefName"@) == Some(JVal::Str(x.base_ref_name@))
        &&& text_or_empty(obj_lookup(fs, "url"@), x.url@)
        &&& count_or_zero(obj_lookup(fs, "additions"@), x.additions)
        &&& count_or_zero(obj_lookup(fs, "deletions"@), x.deletions)
        &&& (match obj_lookup(fs, "files"@) {
            None => x.files@.len() == 0,
            Some(fv) => fv matches JVal::Arr(items) && all_prfiles_match(x.files@, items),
        })
    }
}

pub open spec fn prinfo_decodable(v: JVal) -> bool {
    v matches JVal::Obj(fs) && {
        &&& obj_lookup(fs, "number"@) matches Some(JVal::UNum(_))
        &&& obj_lookup(fs, "title"@) matches Some(JVal::Str(_))
        &&& text_or_empty_ok(obj_lookup(fs, "body"@))
        &&& obj_lookup(fs, "headRefName"@) matches Some(JVal::Str(_))
        &&& obj_lookup(fs, "baseRefName"@) matches Some(JVal::Str(_))
        &&& text_or_empty_ok(obj_lookup(fs, "url"@))
        &&& count_or_zero_ok(obj_lookup(fs, "additions"@))
        &&& count_or_zero_ok(obj_lookup(fs, "deletions"@))
        &&& (match obj_lookup(fs, "files"@) {
            None => true,
            Some(fv) => fv matches JVal::Arr(items) && all_prfiles_decodable(items),
        })
    }
}

/// Reads a pull-request description from the request tool's JSON text.
pub fn prinfo_from_text(text: &str) -> (r: Option<PrInfo>)
    ensures
        match crate::json::json_of(text@) {
            None => r is None,
            Some(doc) => {
                &&& (r is Some) == prinfo_decodable(doc)
                &&& (match r {
                    Some(x) => prinfo_matches(x, doc),
                    None => true,
                })
            },
        },
{
    match crate::json::parse_json(text) {
        Some(doc) => prinfo_from_json(&doc),
        None => None,
    }
}

/// Decodes the request tool's description of a pull request.
pub fn prinfo_from_json(v: &JsonVal) -> (r: Option<PrInfo>)
    ensures
        (r is Some) == prinfo_decodable(jv(*v)),
        r matches Some(x) ==> prinfo_matches(x, jv(*v)),
{
    match v {
        JsonVal::Obj(fs) => {
            let number = match get_u64(fs, "number") {
                Some(x) => x,
                None => {
                    return None;
                },
            };
            let title = match get_str(fs, "title") {
                Some(x) => x,
                None => {
                    return None;
                },
            };
            let body = match crate::json::obj_get(fs, "body") {
                None => String::new(),
                Some(bv) => match bv {
                    JsonVal::Str(s) => s.clone(),
                    _ => {
                        proof {
                            crate::codec::lemma_jv_shape(*bv);
                        }
                        return None;
                    },
                },
            };
            let head_ref_name = match get_str(fs, "headRefName") {
                Some(x) => x,
                None => {
                    return None;
                },
            };
            let base_ref_name = match get_str(fs, "baseRefName") {
                Some(x) => x,
                None => {
                    return None;
                },
            };
            let url = match crate::json::obj_get(fs, "url") {
                None => String::new(),
                Some(uv) => match uv {
                    JsonVal::Str(s) => s.clone(),
                    _ => {
                        proof {
                            crate::codec::lemma_jv_shape(*uv);
                        }
                        return None;
                    },
                },
            };
            let additions = match crate::json::obj_get(fs, "additions") {
                None => 0,
                Some(av) => match av {
                    JsonVal::UNum(n) => *n,
                    _ => {
                        proof {
                            crate::codec::lemma_jv_shape(*av);
                        }
                        return None;
                    },
                },
            };
            let deletions = match crate::json::obj_get(fs, "deletions") {
                None => 0,
                Some(dv2) => match dv2 {
                    JsonVal::UNum(n) => *n,
                    _ => {
                        proof {
                            crate::codec::lemma_jv_shape(*dv2);
                        }
                        return None;
                    },
                },
            };
            let files = match crate::json::obj_get(fs, "files") {
                None => Vec::new(),
                Some(fv) => match fv {
                    JsonVal::Arr(items) => {
                        proof {
                            lemma_jv_list_len(items@);
                            assert(jv(*fv) == JVal::Arr(jv_list(items@)));
                        }
                        let mut out: Vec<PrFile> = Vec::new();
                        let mut i: usize = 0;
                        let mut failed = false;
                        while i < items.len() && !failed
                            invariant
                                0 <= i <= items@.len(),
                                jv_list(items@).len() == items@.len(),
                                !failed ==> out@.len() == i && forall|j: int|
                                    0 <= j < i ==> prfile_decodable(
                                        #[trigger] jv_list(items@)[j],
                                    ) && prfile_matches(out@[j], jv_list(items@)[j]),
                                failed ==> exists|j: int|
                                    0 <= j < items@.len() && !prfile_decodable(
                                        #[trigger] jv_list(items@)[j],
                                    ),
                            decreases items@.len() - i, (if failed { 0int } else { 1int }),
                        {
                            proof {
                                lemma_jv_list_index(items@, i as int);
                            }
                            match prfile_from_json(&items[i]) {
                                Some(x) => {
                                    out.push(x);
                                    i = i + 1;
                                },
                                None => {
                                    failed = true;
                                },
                            }
                        }
                        if failed {
                            return None;
                        }
                        out
                    },
                    _ => {
                        proof {
                            crate::codec::lemma_jv_shape(*fv);
                        }
                        return None;
                    },
                },
            };
            Some(
                PrInfo {
                    number,
                    title,
                    body,
                    head_ref_name,
                    base_ref_name,
                    url,
                    additions,
                    deletions,
                    files,
                },
            )
        },
        _ => {
            proof {
                crate::codec::lemma_jv_shape(*v);
            }
            None
        },
    }
}

} // verus!
