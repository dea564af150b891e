//! The contest classifier.
//!
//! A contest belongs to one of a closed set of structural eras, each fixing
//! how many problems the contest has. The primary series changed shape twice
//! over its history, so its numeric id picks the era; the two other series
//! always have six problems.

use vstd::prelude::*;

use crate::errors::ParseError;
use crate::labels::{generate, label_at, labels_spec};
use crate::text::str_eq;

verus! {

/// The structural eras of the supported contest series, each with its fixed
/// problem count.
#[allow(non_camel_case_types)]
#[derive(Clone, Copy, PartialEq, Eq, Debug, Structural)]
pub enum Contests {
    /// The primary series in its current 8-problem shape.
    ABC,
    /// The primary series between ids 126 and 211: 6 problems.
    H_ABC,
    /// The primary series up to id 125: 4 problems.
    S_ABC,
    /// The second series: always 6 problems.
    ARC,
    /// The grand series: always 6 problems.
    AGC,
}

impl Contests {
    /// The series token this kind belongs to.
    pub open spec fn series(&self) -> Seq<char> {
        match *self {
            Contests::ABC => "abc"@,
            Contests::H_ABC => "abc"@,
            Contests::S_ABC => "abc"@,
            Contests::ARC => "arc"@,
            Contests::AGC => "agc"@,
        }
    }

    pub fn value<'a>(&self) -> (r: &'a str)
        ensures
            r@ == self.series(),
    {
        match *self {
            Contests::ABC => "abc",
            Contests::H_ABC => "abc",
            Contests::S_ABC => "abc",
            Contests::ARC => "arc",
            Contests::AGC => "agc",
        }
    }

    /// How many problem slots a contest of this kind has.
    pub open spec fn problem_count_spec(&self) -> nat {
        match *self {
            Contests::ABC => 8,
            Contests::H_ABC => 6,
            Contests::S_ABC => 4,
            Contests::ARC => 6,
            Contests::AGC => 6,
        }
    }

    pub fn problem_count(&self) -> (n: usize)
        ensures
            n == self.problem_count_spec(),
    {
        match *self {
            Contests::ABC => 8,
            Contests::H_ABC => 6,
            Contests::S_ABC => 4,
            Contests::ARC => 6,
            Contests::AGC => 6,
        }
    }

    /// The ordered problem labels of a contest of this kind: exactly
    /// `problem_count` labels in bijective base-26 order starting at `a`.
    pub fn problem_names(&self) -> (r: Vec<String>)
        ensures
            r@.len() == self.problem_count_spec(),
            forall|i: int| 0 <= i < r@.len() ==> r@[i]@ == label_at(i as nat),
            r.deep_view() == labels_spec(self.problem_count_spec()),
    {
        generate(self.problem_count())
    }

    /// The kind named by an explicit type-name override, if any.
    pub open spec fn from_typename_spec(s: Seq<char>) -> Option<Contests> {
        if s == "abc"@ {
            Some(Contests::ABC)
        } else if s == "h-abc"@ {
            Some(Contests::H_ABC)
        } else if s == "s-abc"@ {
            Some(Contests::S_ABC)
        } else if s == "arc"@ {
            Some(Contests::ARC)
        } else if s == "agc"@ {
            Some(Contests::AGC)
        } else {
            None
        }
    }

    /// Resolves an explicit type-name override to a contest kind.
    pub fn from_typename(token: &str) -> (r: Option<Contests>)
        ensures
            r == Self::from_typename_spec(token@),
    {
        if str_eq(token, "abc") {
            Some(Contests::ABC)
        } else if str_eq(token, "h-abc") {
            Some(Contests::H_ABC)
        } else if str_eq(token, "s-abc") {
            Some(Contests::S_ABC)
        } else if str_eq(token, "arc") {
            Some(Contests::ARC)
        } else if str_eq(token, "agc") {
            Some(Contests::AGC)
        } else {
            None
        }
    }
}

/// The era a contest of series `series` and numeric id `id` falls in. Only
/// the primary series is split by id: up to 125 it had 4 problems, from 126
/// to 211 it had 6, and from 212 on it has 8. The other two series have 6
/// problems whatever their id. Any other token is rejected.
pub open spec fn classify_spec(series: Seq<char>, id: u32) -> Result<Contests, ParseError> {
    if series == "abc"@ {
        if id <= 125 {
            Ok(Contests::S_ABC)
        } else if id <= 211 {
            Ok(Contests::H_ABC)
        } else {
            Ok(Contests::ABC)
        }
    } else if series == "arc"@ {
        Ok(Contests::ARC)
    } else if series == "agc"@ {
        Ok(Contests::AGC)
    } else {
        Err(ParseError::InvalidContestKind)
    }
}

/// Classifies a contest by its series token and numeric id.
pub fn classify(series: &str, id: u32) -> (r: Result<Contests, ParseError>)
    ensures
        r == classify_spec(series@, id),
{
    if str_eq(series, "abc") {
        if id <= 125 {
            Ok(Contests::S_ABC)
        } else if id <= 211 {
            Ok(Contests::H_ABC)
        } else {
            Ok(Contests::ABC)
        }
    } else if str_eq(series, "arc") {
        Ok(Contests::ARC)
    } else if str_eq(series, "agc") {
        Ok(Contests::AGC)
    } else {
        Err(ParseError::InvalidContestKind)
    }
}

} // verus!
