//! Parsing of contest identifiers.
//!
//! A contest may be named by a URL into the contest area of the host, or by
//! a free-form name. A canonical name is a three-letter series code (any
//! case), an optional `-` or `_` separator, and a three-digit id; it is
//! normalized to `series-id` and can be classified. Any other name is
//! lowercased, underscores become hyphens, and it carries no inferred kind.

use vstd::prelude::*;

use crate::text::{
    ascii_lower, has_at, is_digit, lower_char, lower_of, lower_seq, scan_until, take_until,
    unicode_lower,
};

verus! {

/// The contest-name segment of a contest URL: for a URL that enters the
/// contest area of the host, the maximal nonempty run of characters after
/// the area prefix and before the next `/`. `None` when the URL does not
/// point there, or when the run is empty.
pub open spec fn url_contest_name(u: Seq<char>) -> Option<Seq<char>> {
    let ps = "https://atcoder.jp/contests/"@;
    let pp = "http://atcoder.jp/contests/"@;
    if u.len() >= ps.len() && u.subrange(0, ps.len() as int) == ps {
        let t = take_until(u.skip(ps.len() as int), '/');
        if t.len() == 0 {
            None
        } else {
            Some(t)
        }
    } else if u.len() >= pp.len() && u.subrange(0, pp.len() as int) == pp {
        let t = take_until(u.skip(pp.len() as int), '/');
        if t.len() == 0 {
            None
        } else {
            Some(t)
        }
    } else {
        None
    }
}

/// Extracts the contest name out of a contest URL.
pub fn extract_name_from_url(url: &str) -> (r: Result<String, ()>)
    ensures
        r is Ok <==> url_contest_name(url@) is Some,
        r matches Ok(name) ==> Some(name@) == url_contest_name(url@),
{
    proof {
        reveal_strlit("https://atcoder.jp/contests/");
        reveal_strlit("http://atcoder.jp/contests/");
    }
    if has_at(url, "https://atcoder.jp/contests/", 0) {
        let r = scan_until(url, 28, '/');
        let name = r.0;
        if name.as_str().unicode_len() == 0 {
            Err(())
        } else {
            Ok(name)
        }
    } else if has_at(url, "http://atcoder.jp/contests/", 0) {
        let r = scan_until(url, 27, '/');
        let name = r.0;
        if name.as_str().unicode_len() == 0 {
            Err(())
        } else {
            Ok(name)
        }
    } else {
        Err(())
    }
}

/// A canonical contest name: series code `a`, one of `b`/`g`/`r`, `c` in
/// any case, an optional `-` or `_` separator, and exactly three digits.
pub open spec fn is_axc(s: Seq<char>) -> bool {
    &&& (s.len() == 6 || s.len() == 7)
    &&& lower_char(s[0]) == 'a'
    &&& (lower_char(s[1]) == 'b' || lower_char(s[1]) == 'g' || lower_char(s[1]) == 'r')
    &&& lower_char(s[2]) == 'c'
    &&& (s.len() == 7 ==> (s[3] == '-' || s[3] == '_'))
    &&& is_digit(s[s.len() - 3])
    &&& is_digit(s[s.len() - 2])
    &&& is_digit(s[s.len() - 1])
}

/// The lowercased series token of a canonical name.
pub open spec fn axc_series(s: Seq<char>) -> Seq<char> {
    lower_seq(s.subrange(0, 3))
}

/// The three id digits of a canonical name.
pub open spec fn axc_digits(s: Seq<char>) -> Seq<char> {
    s.subrange(s.len() - 3, s.len() as int)
}

/// The normalization of a non-canonical name: the Unicode lowercasing of
/// the raw text, with every `_` of the result then replaced by `-`.
pub open spec fn opaque_name(s: Seq<char>) -> Seq<char> {
    Seq::new(
        lower_of(s).len(),
        |i: int| if lower_of(s)[i] == '_' {
            '-'
        } else {
            lower_of(s)[i]
        },
    )
}

/// A user-supplied contest name after normalization.
pub enum ContestName {
    /// A canonical name: the lowercased series token and the three id
    /// digits.
    Axc(String, String),
    /// Any other name, normalized to an opaque directory name.
    Other(String),
}

/// Normalizes a contest name: canonical names split into series and id,
/// everything else becomes an opaque lowercased name.
pub fn format_contest_name(name: &str) -> (r: ContestName)
    ensures
        is_axc(name@) ==> (r matches ContestName::Axc(series, digits) && series@ == axc_series(
            name@,
        ) && digits@ == axc_digits(name@)),
        !is_axc(name@) ==> (r matches ContestName::Other(t) && t@ == opaque_name(name@)),
{
    let low = ascii_lower(name);
    let n = low.as_str().unicode_len();
    let mut canon = n == 6 || n == 7;
    if canon {
        let c0 = low.as_str().get_char(0);
        let c1 = low.as_str().get_char(1);
        let c2 = low.as_str().get_char(2);
        canon = c0 == 'a' && (c1 == 'b' || c1 == 'g' || c1 == 'r') && c2 == 'c';
    }
    if canon && n == 7 {
        let sep = low.as_str().get_char(3);
        canon = sep == '-' || sep == '_';
        proof {
            // the separator is never an uppercase letter, so lower-casing
            // does not disturb the test
            assert(name@[3] == '-' || name@[3] == '_' <==> (sep == '-' || sep == '_'));
        }
    }
    if canon {
        let d0 = low.as_str().get_char(n - 3);
        let d1 = low.as_str().get_char(n - 2);
        let d2 = low.as_str().get_char(n - 1);
        canon = is_digit_exec(d0) && is_digit_exec(d1) && is_digit_exec(d2);
        proof {
            assert(forall|c: char| is_digit(lower_char(c)) == is_digit(c));
        }
    }
    if canon {
        assert(is_axc(name@));
        let series = String::from_str(low.as_str().substring_char(0, 3));
        let digits = String::from_str(low.as_str().substring_char(n - 3, n));
        proof {
            assert(series@ =~= axc_series(name@));
            assert(forall|j: int| 0 <= j < 3 ==> digits@[j] == lower_char(name@[n - 3 + j]));
            assert(digits@ =~= axc_digits(name@));
        }
        ContestName::Axc(series, digits)
    } else {
        assert(!is_axc(name@));
        let lowered = unicode_lower(name);
        let ln = lowered.as_str().unicode_len();
        let mut out = String::new();
        let mut i: usize = 0;
        while i < ln
            invariant
                i <= ln,
                ln == lowered@.len(),
                lowered@ == lower_of(name@),
                out@ == opaque_name(name@).subrange(0, i as int),
            decreases ln - i,
        {
            let c = lowered.as_str().get_char(i);
            if c == '_' {
                out.push('-');
            } else {
                out.push(c);
            }
            i += 1;
            proof {
                assert(out@ =~= opaque_name(name@).subrange(0, i as int));
            }
        }
        proof {
            assert(opaque_name(name@).subrange(0, ln as int) =~= opaque_name(name@));
        }
        ContestName::Other(out)
    }
}

fn is_digit_exec(c: char) -> (r: bool)
    ensures
        r == is_digit(c),
{
    '0' <= c && c <= '9'
}

/// The value of three decimal digit characters, most significant first.
pub open spec fn digits3_val(s: Seq<char>) -> int {
    100 * (s[0] as int - 48) + 10 * (s[1] as int - 48) + (s[2] as int - 48)
}

/// Reads a three-digit contest id.
pub fn parse_id3(digits: &str) -> (r: u32)
    requires
        digits@.len() == 3,
        is_digit(digits@[0]),
        is_digit(digits@[1]),
        is_digit(digits@[2]),
    ensures
        r == digits3_val(digits@),
        r <= 999,
{
    let d0 = digits.get_char(0);
    let d1 = digits.get_char(1);
    let d2 = digits.get_char(2);
    100 * ((d0 as u8 - 48) as u32) + 10 * ((d1 as u8 - 48) as u32) + ((d2 as u8 - 48) as u32)
}

} // verus!
