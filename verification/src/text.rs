//! Small verified text utilities shared by the engine: character-exact
//! equality and substring search over `&str`, ASCII case folding, and
//! decimal rendering of counters used in generated file names.

use vstd::prelude::*;

verus! {

/// Relies on std's `String::push`: appends the given character to the end of
/// the string. vstd gives `push` no specification of its own.
pub assume_specification[ String::push ](s: &mut String, ch: char)
    ensures
        final(s)@ == old(s)@.push(ch),
;

/// Character-for-character equality of two string slices.
pub fn str_eq(a: &str, b: &str) -> (r: bool)
    ensures
        r == (a@ == b@),
{
    let n = a.unicode_len();
    if n != b.unicode_len() {
        return false;
    }
    let mut i: usize = 0;
    while i < n
        invariant
            n == a@.len(),
            n == b@.len(),
            i <= n,
            forall|k: int| 0 <= k < i ==> a@[k] == b@[k],
        decreases n - i,
    {
        if a.get_char(i) != b.get_char(i) {
            return false;
        }
        i += 1;
    }
    proof {
        assert(a@ =~= b@);
    }
    true
}

/// `needle` occurs in `hay` starting at position `at`.
pub open spec fn matches_at(hay: Seq<char>, needle: Seq<char>, at: int) -> bool {
    &&& 0 <= at
    &&& at + needle.len() <= hay.len()
    &&& hay.subrange(at, at + needle.len()) == needle
}

/// `needle` occurs somewhere in `hay`.
pub open spec fn contains_seq(hay: Seq<char>, needle: Seq<char>) -> bool {
    exists|at: int| matches_at(hay, needle, at)
}

/// Whether `needle` occurs in `hay` at position `at`.
pub fn has_at(hay: &str, needle: &str, at: usize) -> (r: bool)
    ensures
        r == matches_at(hay@, needle@, at as int),
{
    let n = needle.unicode_len();
    let h = hay.unicode_len();
    if n > h || at > h - n {
        return false;
    }
    let mut k: usize = 0;
    while k < n
        invariant
            n == needle@.len(),
            h == hay@.len(),
            at + n <= h,
            k <= n,
            forall|j: int| 0 <= j < k ==> hay@[at + j] == needle@[j],
        decreases n - k,
    {
        if hay.get_char(at + k) != needle.get_char(k) {
            assert(hay@.subrange(at as int, at + n) != needle@) by {
                assert(hay@.subrange(at as int, at + n)[k as int] != needle@[k as int]);
            }
            return false;
        }
        k += 1;
    }
    proof {
        assert(hay@.subrange(at as int, at + n) =~= needle@);
    }
    true
}

/// Whether `needle` occurs anywhere in `hay`.
pub fn contains_sub(hay: &str, needle: &str) -> (r: bool)
    ensures
        r == contains_seq(hay@, needle@),
{
    let n = needle.unicode_len();
    let h = hay.unicode_len();
    if n > h {
        return false;
    }
    if n == 0 {
        proof {
            assert(hay@.subrange(0, 0) =~= needle@);
            assert(matches_at(hay@, needle@, 0));
        }
        return true;
    }
    let mut at: usize = 0;
    while at <= h - n
        invariant
            n == needle@.len(),
            h == hay@.len(),
            1 <= n <= h,
            at <= h - n + 1,
            forall|j: int| 0 <= j < at ==> !matches_at(hay@, needle@, j),
        decreases h - n - at + 1,
    {
        if has_at(hay, needle, at) {
            return true;
        }
        at += 1;
    }
    false
}

/// ASCII lower-casing of one character; other characters are unchanged.
pub open spec fn lower_char(c: char) -> char {
    if 'A' <= c && c <= 'Z' {
        ((c as u8 + 32) as u8) as char
    } else {
        c
    }
}

/// A decimal digit character.
pub open spec fn is_digit(c: char) -> bool {
    '0' <= c && c <= '9'
}

/// ASCII lower-casing of a character sequence.
pub open spec fn lower_seq(s: Seq<char>) -> Seq<char> {
    Seq::new(s.len(), |i: int| lower_char(s[i]))
}

/// What std's `str::to_lowercase` returns for a given character sequence:
/// the full Unicode lowercasing, a function of the characters alone.
pub uninterp spec fn lower_of(s: Seq<char>) -> Seq<char>;

/// Relies on std's `str::to_lowercase`: returns the Unicode lowercasing of
/// `s`, which depends on the characters of `s` alone.
#[verifier::external_body]
pub(crate) fn unicode_lower(s: &str) -> (r: String)
    ensures
        r@ == lower_of(s@),
{
    s.to_lowercase()
}

pub fn lower_char_exec(c: char) -> (r: char)
    ensures
        r == lower_char(c),
{
    if 'A' <= c && c <= 'Z' {
        ((c as u8) + 32) as char
    } else {
        c
    }
}

/// ASCII lower-casing of a string slice. Characters outside `A`..`Z` are kept
/// as they are.
pub fn ascii_lower(s: &str) -> (r: String)
    ensures
        r@ == lower_seq(s@),
{
    let n = s.unicode_len();
    let mut r = String::new();
    let mut i: usize = 0;
    while i < n
        invariant
            n == s@.len(),
            i <= n,
            r@ == lower_seq(s@).subrange(0, i as int),
        decreases n - i,
    {
        r.push(lower_char_exec(s.get_char(i)));
        i += 1;
        proof {
            assert(r@ =~= lower_seq(s@).subrange(0, i as int));
        }
    }
    proof {
        assert(lower_seq(s@).subrange(0, n as int) =~= lower_seq(s@));
    }
    r
}

/// The decimal digit character for a value below ten.
pub open spec fn dec_digit(d: nat) -> char {
    ((48 + d) as u8) as char
}

/// The decimal rendering of `n`, most significant digit first, no leading
/// zeros (except for `n == 0`, rendered as `"0"`).
pub open spec fn dec_rep(n: nat) -> Seq<char>
    decreases n,
{
    if n < 10 {
        seq![dec_digit(n)]
    } else {
        dec_rep(n / 10).push(dec_digit(n % 10))
    }
}

fn digit_char(d: u64) -> (c: char)
    requires
        d < 10,
    ensures
        c == dec_digit(d as nat),
{
    ((48 + d) as u8) as char
}

/// Renders `n` in decimal.
pub fn dec_str(n: u64) -> (r: String)
    ensures
        r@ == dec_rep(n as nat),
    decreases n,
{
    if n < 10 {
        let mut r = String::new();
        r.push(digit_char(n));
        proof {
            assert(r@ =~= dec_rep(n as nat));
        }
        r
    } else {
        let mut r = dec_str(n / 10);
        r.push(digit_char(n % 10));
        r
    }
}

/// The initial run of characters of `s` strictly before the first `stop`.
pub open spec fn take_until(s: Seq<char>, stop: char) -> Seq<char>
    decreases s.len(),
{
    if s.len() == 0 || s[0] == stop {
        Seq::empty()
    } else {
        seq![s[0]] + take_until(s.drop_first(), stop)
    }
}

/// Collects the characters of `s` from position `from` up to (and not
/// including) the first occurrence of `stop`, together with the position
/// where the collection stopped.
pub fn scan_until(s: &str, from: usize, stop: char) -> (r: (String, usize))
    requires
        from <= s@.len(),
    ensures
        r.0@ == take_until(s@.skip(from as int), stop),
        r.1 == from + r.0@.len(),
        r.1 <= s@.len(),
        r.1 < s@.len() ==> s@[r.1 as int] == stop,
{
    let n = s.unicode_len();
    let mut i: usize = from;
    let mut out = String::new();
    loop
        invariant
            from <= i <= n,
            n == s@.len(),
            out@.len() == i - from,
            take_until(s@.skip(from as int), stop) == out@ + take_until(s@.skip(i as int), stop),
            forall|j: int| from <= j < i ==> s@[j] != stop,
        ensures
            from <= i <= n,
            out@.len() == i - from,
            out@ == take_until(s@.skip(from as int), stop),
            i < n ==> s@[i as int] == stop,
        decreases n - i,
    {
        if i == n {
            proof {
                assert(s@.skip(i as int) =~= Seq::<char>::empty());
                assert(out@ + take_until(s@.skip(i as int), stop) =~= out@);
            }
            break ;
        }
        let c = s.get_char(i);
        proof {
            assert(s@.skip(i as int)[0] == s@[i as int]);
        }
        if c == stop {
            proof {
                assert(take_until(s@.skip(i as int), stop) =~= Seq::<char>::empty());
                assert(out@ + take_until(s@.skip(i as int), stop) =~= out@);
            }
            break ;
        }
        proof {
            assert(s@.skip(i as int).drop_first() =~= s@.skip(i as int + 1));
            assert(take_until(s@.skip(i as int), stop) == seq![s@[i as int]] + take_until(
                s@.skip(i as int + 1),
                stop,
            ));
        }
        out.push(c);
        i += 1;
        proof {
            assert(out@ + take_until(s@.skip(i as int), stop) =~= take_until(
                s@.skip(from as int),
                stop,
            ));
        }
    }
    (out, i)
}

/// A line with a trailing carriage return stripped.
pub open spec fn strip_cr(line: Seq<char>) -> Seq<char> {
    if line.len() > 0 && line.last() == '\r' {
        line.drop_last()
    } else {
        line
    }
}

/// The lines of `s`: split at each newline, each line with a trailing
/// carriage return stripped, and no empty final line when `s` ends with a
/// newline.
pub open spec fn lines_spec(s: Seq<char>) -> Seq<Seq<char>>
    decreases s.len(),
{
    if s.len() == 0 {
        Seq::empty()
    } else {
        let t = take_until(s, '\n');
        let rest = if t.len() < s.len() {
            s.skip(t.len() as int + 1)
        } else {
            Seq::empty()
        };
        seq![strip_cr(t)] + lines_spec(rest)
    }
}

/// Splits `s` into its lines, as a reader of a line-per-entry file does:
/// one entry per newline-terminated or final line, trailing carriage
/// returns stripped.
pub fn split_lines(s: &str) -> (r: Vec<String>)
    ensures
        r.deep_view() == lines_spec(s@),
{
    let n = s.unicode_len();
    let mut r: Vec<String> = Vec::new();
    proof {
        assert(s@.skip(0) =~= s@);
        assert(r.deep_view() =~= Seq::<Seq<char>>::empty());
        assert(r.deep_view() + lines_spec(s@) =~= lines_spec(s@));
    }
    let mut p: usize = 0;
    while p < n
        invariant
            p <= n,
            n == s@.len(),
            lines_spec(s@) == r.deep_view() + lines_spec(s@.skip(p as int)),
        decreases n - p,
    {
        let ghost prefix = r.deep_view();
        let scanned = scan_until(s, p, '\n');
        let mut line = scanned.0;
        let stop = scanned.1;
        proof {
            assert(s@.skip(p as int).len() > 0);
            assert(line@ == take_until(s@.skip(p as int), '\n'));
        }
        let ghost t = take_until(s@.skip(p as int), '\n');
        // strip one trailing carriage return
        let ll = line.as_str().unicode_len();
        if ll > 0 && line.as_str().get_char(ll - 1) == '\r' {
            let stripped = String::from_str(line.as_str().substring_char(0, ll - 1));
            proof {
                assert(stripped@ =~= strip_cr(t));
            }
            line = stripped;
        }
        proof {
            assert(line@ == strip_cr(t));
        }
        r.push(line);
        let next_p = if stop < n {
            stop + 1
        } else {
            n
        };
        proof {
            // relate the spec's recursion step to this iteration
            let rest = if t.len() < s@.skip(p as int).len() {
                s@.skip(p as int).skip(t.len() as int + 1)
            } else {
                Seq::<char>::empty()
            };
            assert(lines_spec(s@.skip(p as int)) == seq![strip_cr(t)] + lines_spec(rest));
            if t.len() < s@.skip(p as int).len() {
                assert(stop == p + t.len());
                assert(s@.skip(p as int).skip(t.len() as int + 1) =~= s@.skip(next_p as int));
            } else {
                assert(next_p == n);
                assert(s@.skip(next_p as int) =~= Seq::<char>::empty());
            }
            assert(r.deep_view() =~= prefix + seq![strip_cr(t)]);
            assert(prefix + seq![strip_cr(t)] + lines_spec(s@.skip(next_p as int)) =~= prefix
                + lines_spec(s@.skip(p as int)));
        }
        p = next_p;
    }
    proof {
        assert(s@.skip(n as int) =~= Seq::<char>::empty());
        assert(r.deep_view() + lines_spec(s@.skip(n as int)) =~= r.deep_view());
    }
    r
}

/// Copies a character vector into a fresh `String`.
pub fn chars_to_string(v: &Vec<char>) -> (r: String)
    ensures
        r@ == v@,
{
    let mut r = String::new();
    let mut i: usize = 0;
    while i < v.len()
        invariant
            i <= v@.len(),
            r@ == v@.subrange(0, i as int),
        decreases v@.len() - i,
    {
        r.push(v[i]);
        i += 1;
        proof {
            assert(r@ =~= v@.subrange(0, i as int));
        }
    }
    proof {
        assert(v@.subrange(0, v@.len() as int) =~= v@);
    }
    r
}

} // verus!
