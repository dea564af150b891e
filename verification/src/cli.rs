//! Resolution of command-line inputs into a contest description.
//!
//! The surrounding command-line glue only collects the raw option values;
//! everything decided here — which name, which kind, which URL, and which
//! error when something is missing or unrecognized — is verified.

use vstd::prelude::*;

use crate::contests::{classify, classify_spec, Contests};
use crate::errors::ParseError;
use crate::labels::{label_at, labels_spec};
use crate::names::{
    axc_digits, axc_series, digits3_val, extract_name_from_url, format_contest_name, is_axc,
    parse_id3, url_contest_name, ContestName,
};
use crate::text::{ascii_lower, lower_seq};

verus! {

/// A contest scaffold request: the directory name, the contest kind, and
/// the contest URL when tests are to be fetched.
#[derive(PartialEq, Eq, Debug)]
pub struct ContestInfo {
    pub name: String,
    pub kind: Contests,
    pub url: Option<String>,
}

/// One fully parsed command line.
pub enum ParsedArg {
    /// Create a contest directory.
    CreateDir(ContestInfo),
    /// Log in with user name and password.
    Login(String, String),
    /// Add sample tests, for the contest URL, to the problems named.
    AddTest(String, Vec<String>),
}

/// View of an optional borrowed string.
pub open spec fn opt_str_view(o: Option<&String>) -> Option<Seq<char>> {
    match o {
        Some(s) => Some(s@),
        None => None,
    }
}

/// View of an optional owned string.
pub open spec fn opt_string_view(o: Option<String>) -> Option<Seq<char>> {
    match o {
        Some(s) => Some(s@),
        None => None,
    }
}

/// The contest page URL rebuilt from an extracted contest name.
pub open spec fn contest_url(name: Seq<char>) -> Seq<char> {
    "https://atcoder.jp/contests/"@ + name
}

/// The directory name derived from one supplied name text: canonical names
/// normalize to `series-id`, anything else to an opaque lowercased name.
pub open spec fn derived_name(t: Seq<char>) -> Seq<char> {
    if is_axc(t) {
        axc_series(t) + seq!['-'] + axc_digits(t)
    } else {
        crate::names::opaque_name(t)
    }
}

/// The kind inferred from one supplied name text, when it is canonical.
pub open spec fn derived_kind(t: Seq<char>) -> Option<Contests> {
    if is_axc(t) {
        Some(classify_spec(axc_series(t), digits3_val(axc_digits(t)) as u32)->Ok_0)
    } else {
        None
    }
}

/// The series token of a canonical name is always a recognized one.
proof fn lemma_axc_series_token(t: Seq<char>)
    requires
        is_axc(t),
    ensures
        axc_series(t) == "abc"@ || axc_series(t) == "agc"@ || axc_series(t) == "arc"@,
{
    reveal_strlit("abc");
    reveal_strlit("agc");
    reveal_strlit("arc");
    let s = axc_series(t);
    if crate::text::lower_char(t[1]) == 'b' {
        assert(s =~= "abc"@);
    } else if crate::text::lower_char(t[1]) == 'g' {
        assert(s =~= "agc"@);
    } else {
        assert(s =~= "arc"@);
    }
}

/// What the plain (scaffold) command resolves to from its three options:
/// directory name, kind and optional URL, or the error reported. A bad URL
/// is reported first, then an unrecognized kind token; a missing name or
/// kind is reported last. The name argument overrides the name taken from
/// the URL; an explicit kind token overrides any inferred kind.
pub open spec fn resolve_default_spec(
    url: Option<Seq<char>>,
    name: Option<Seq<char>>,
    kind: Option<Seq<char>>,
) -> Result<(Seq<char>, Contests, Option<Seq<char>>), ParseError> {
    if url is Some && url_contest_name(url->0) is None {
        Err(ParseError::InvalidUrl)
    } else if kind is Some && Contests::from_typename_spec(lower_seq(kind->0)) is None {
        Err(ParseError::InvalidContestKind)
    } else {
        let out_url = if url is Some {
            Some(contest_url(url_contest_name(url->0)->0))
        } else {
            None
        };
        let nm = if name is Some {
            Some(derived_name(name->0))
        } else if url is Some {
            Some(derived_name(url_contest_name(url->0)->0))
        } else {
            None
        };
        let kd = if kind is Some {
            Some(Contests::from_typename_spec(lower_seq(kind->0))->0)
        } else if name is Some && is_axc(name->0) {
            derived_kind(name->0)
        } else if url is Some && is_axc(url_contest_name(url->0)->0) {
            derived_kind(url_contest_name(url->0)->0)
        } else {
            None
        };
        if nm is Some && kd is Some {
            Ok((nm->0, kd->0, out_url))
        } else {
            Err(ParseError::MissingContestKind)
        }
    }
}

/// The model of a resolved contest description.
pub open spec fn info_model(info: ContestInfo) -> (Seq<char>, Contests, Option<Seq<char>>) {
    (info.name@, info.kind, opt_string_view(info.url))
}

/// Resolves the plain command's `--url`, `--name` and `--type` options into
/// a contest description.
pub fn resolve_default(url: Option<&String>, name: Option<&String>, kind: Option<&String>) -> (r:
    Result<ContestInfo, ParseError>)
    ensures
        (match r {
            Ok(info) => resolve_default_spec(
                opt_str_view(url),
                opt_str_view(name),
                opt_str_view(kind),
            ) == Ok::<_, ParseError>(info_model(info)),
            Err(e) => resolve_default_spec(
                opt_str_view(url),
                opt_str_view(name),
                opt_str_view(kind),
            ) == Err::<(Seq<char>, Contests, Option<Seq<char>>), _>(e),
        }),
{
    proof {
        reveal_strlit("-");
    }
    let mut r_name: Option<String> = None;
    let mut r_kind: Option<Contests> = None;
    let mut r_url: Option<String> = None;
    if let Some(u) = url {
        match extract_name_from_url(u.as_str()) {
            Ok(nm) => {
                let mut ub = String::from_str("https://atcoder.jp/contests/");
                ub.append(nm.as_str());
                r_url = Some(ub);
                match format_contest_name(nm.as_str()) {
                    ContestName::Axc(series, digits) => {
                        proof {
                            lemma_axc_series_token(nm@);
                        }
                        let id = parse_id3(digits.as_str());
                        match classify(series.as_str(), id) {
                            Ok(k) => {
                                let mut nb = series;
                                nb.append("-");
                                nb.append(digits.as_str());
                                proof {
                                    assert(nb@ =~= derived_name(nm@));
                                }
                                r_name = Some(nb);
                                r_kind = Some(k);
                            },
                            Err(_) => {
                                proof {
                                    assert(false);
                                }
                                return Err(ParseError::InvalidContestKind);
                            },
                        }
                    },
                    ContestName::Other(t) => {
                        r_name = Some(t);
                    },
                }
            },
            Err(_) => {
                return Err(ParseError::InvalidUrl);
            },
        }
    }
    if let Some(nm_arg) = name {
        match format_contest_name(nm_arg.as_str()) {
            ContestName::Axc(series, digits) => {
                proof {
                    lemma_axc_series_token(nm_arg@);
                }
                let id = parse_id3(digits.as_str());
                match classify(series.as_str(), id) {
                    Ok(k) => {
                        let mut nb = series;
                        nb.append("-");
                        nb.append(digits.as_str());
                        proof {
                            assert(nb@ =~= derived_name(nm_arg@));
                        }
                        r_name = Some(nb);
                        r_kind = Some(k);
                    },
                    Err(_) => {
                        proof {
                            assert(false);
                        }
                        return Err(ParseError::InvalidContestKind);
                    },
                }
            },
            ContestName::Other(t) => {
                r_name = Some(t);
            },
        }
    }
    if let Some(kd_arg) = kind {
        let low = ascii_lower(kd_arg.as_str());
        match Contests::from_typename(low.as_str()) {
            Some(k) => {
                r_kind = Some(k);
            },
            None => {
                return Err(ParseError::InvalidContestKind);
            },
        }
    }
    if r_name.is_some() && r_kind.is_some() {
        Ok(ContestInfo { name: r_name.unwrap(), kind: r_kind.unwrap(), url: r_url })
    } else {
        Err(ParseError::MissingContestKind)
    }
}

/// What the test-adding command resolves to from its two options: the
/// contest URL and the kind whose labels name the problem directories, or
/// the error reported. Both a URL and a kind (inferred from a canonical URL
/// name or given explicitly) are required.
pub open spec fn resolve_add_test_spec(url: Option<Seq<char>>, kind: Option<Seq<char>>) -> Result<
    (Seq<char>, Contests),
    ParseError,
> {
    if url is Some && url_contest_name(url->0) is None {
        Err(ParseError::InvalidUrl)
    } else if kind is Some && Contests::from_typename_spec(lower_seq(kind->0)) is None {
        Err(ParseError::InvalidContestKind)
    } else {
        let u = if url is Some {
            Some(contest_url(url_contest_name(url->0)->0))
        } else {
            None
        };
        let kd = if kind is Some {
            Some(Contests::from_typename_spec(lower_seq(kind->0))->0)
        } else if url is Some && is_axc(url_contest_name(url->0)->0) {
            derived_kind(url_contest_name(url->0)->0)
        } else {
            None
        };
        if u is Some && kd is Some {
            Ok((u->0, kd->0))
        } else {
            Err(ParseError::MissingArgs)
        }
    }
}

/// Resolves the test-adding command's `--url` and `--type` options into the
/// contest URL and the ordered problem labels of the resolved kind.
pub fn resolve_add_test(url: Option<&String>, kind: Option<&String>) -> (r: Result<
    (String, Vec<String>),
    ParseError,
>)
    ensures
        (match r {
            Ok(p) => {
                let s = resolve_add_test_spec(opt_str_view(url), opt_str_view(kind));
                &&& s is Ok
                &&& p.0@ == s->Ok_0.0
                &&& p.1@.len() == s->Ok_0.1.problem_count_spec()
                &&& forall|i: int| 0 <= i < p.1@.len() ==> p.1@[i]@ == label_at(i as nat)
                &&& p.1.deep_view() == labels_spec(s->Ok_0.1.problem_count_spec())
            },
            Err(e) => resolve_add_test_spec(opt_str_view(url), opt_str_view(kind)) == Err::<
                (Seq<char>, Contests),
                _,
            >(e),
        }),
{
    let mut r_kind: Option<Contests> = None;
    let mut r_url: Option<String> = None;
    if let Some(u) = url {
        match extract_name_from_url(u.as_str()) {
            Ok(nm) => {
                let mut ub = String::from_str("https://atcoder.jp/contests/");
                ub.append(nm.as_str());
                r_url = Some(ub);
                match format_contest_name(nm.as_str()) {
                    ContestName::Axc(series, digits) => {
                        proof {
                            lemma_axc_series_token(nm@);
                        }
                        let id = parse_id3(digits.as_str());
                        match classify(series.as_str(), id) {
                            Ok(k) => {
                                r_kind = Some(k);
                            },
                            Err(_) => {
                                proof {
                                    assert(false);
                                }
                                return Err(ParseError::InvalidContestKind);
                            },
                        }
                    },
                    ContestName::Other(_t) => {},
                }
            },
            Err(_) => {
                return Err(ParseError::InvalidUrl);
            },
        }
    }
    if let Some(kd_arg) = kind {
        let low = ascii_lower(kd_arg.as_str());
        match Contests::from_typename(low.as_str()) {
            Some(k) => {
                r_kind = Some(k);
            },
            None => {
                return Err(ParseError::InvalidContestKind);
            },
        }
    }
    if r_url.is_some() && r_kind.is_some() {
        let k = r_kind.unwrap();
        Ok((r_url.unwrap(), k.problem_names()))
    } else {
        Err(ParseError::MissingArgs)
    }
}

} // verus!
