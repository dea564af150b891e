//! The problem-label generator.
//!
//! Labels name the problem slots of a contest in bijective base-26 over the
//! lowercase Latin alphabet: `a, b, ..., z, aa, ab, ...`. There is no "zero
//! digit", so `z` is followed by `aa`, never by `ba`. A fresh generator
//! always starts before `a` and is restartable: the sequence it produces is
//! a pure function of how many labels have been taken.

use vstd::prelude::*;

use crate::text::chars_to_string;

verus! {

/// Every character of `s` lies in `a`..`z`.
pub open spec fn wf_label(s: Seq<char>) -> bool {
    forall|i: int| 0 <= i < s.len() ==> 'a' <= #[trigger] s[i] && s[i] <= 'z'
}

/// The letter after `c` in the alphabet.
pub open spec fn bump(c: char) -> char {
    ((c as u8 + 1) as u8) as char
}

/// The label following `s` in bijective base-26 order. The empty state is
/// followed by `a`. A trailing `z` wraps to `a` and carries left; a carry
/// past the leftmost character prepends a fresh `a`.
pub open spec fn next_label(s: Seq<char>) -> Seq<char>
    decreases s.len(),
{
    if s.len() == 0 {
        seq!['a']
    } else if s.last() == 'z' {
        next_label(s.drop_last()).push('a')
    } else {
        s.drop_last().push(bump(s.last()))
    }
}

/// The label produced by the `i`-th call on a fresh generator (0-based), so
/// `label_at(0) == "a"`.
pub open spec fn label_at(i: nat) -> Seq<char>
    decreases i,
{
    if i == 0 {
        next_label(Seq::empty())
    } else {
        next_label(label_at((i - 1) as nat))
    }
}

/// The generator's stored label after `k` calls (empty before the first).
pub open spec fn state_at(k: nat) -> Seq<char> {
    if k == 0 {
        Seq::empty()
    } else {
        label_at((k - 1) as nat)
    }
}

/// The first `n` labels, in generation order.
pub open spec fn labels_spec(n: nat) -> Seq<Seq<char>> {
    Seq::new(n, |i: int| label_at(i as nat))
}

/// Successors of well-formed labels are well-formed.
pub proof fn lemma_next_label_wf(s: Seq<char>)
    requires
        wf_label(s),
    ensures
        wf_label(next_label(s)),
    decreases s.len(),
{
    if s.len() == 0 {
    } else if s.last() == 'z' {
        assert(wf_label(s.drop_last()));
        lemma_next_label_wf(s.drop_last());
    } else {
        assert(wf_label(s.drop_last()));
    }
}

/// Every generated label is well-formed.
pub proof fn lemma_label_at_wf(i: nat)
    ensures
        wf_label(label_at(i)),
    decreases i,
{
    if i == 0 {
        lemma_next_label_wf(Seq::empty());
    } else {
        lemma_label_at_wf((i - 1) as nat);
        lemma_next_label_wf(label_at((i - 1) as nat));
    }
}

/// Taking a successor keeps the length or grows it by one.
pub proof fn lemma_next_label_len(s: Seq<char>)
    ensures
        s.len() <= next_label(s).len() <= s.len() + 1,
    decreases s.len(),
{
    if s.len() == 0 {
    } else if s.last() == 'z' {
        lemma_next_label_len(s.drop_last());
    }
}

/// Strict lexicographic order on character sequences of equal length.
pub open spec fn lex_lt(a: Seq<char>, b: Seq<char>) -> bool
    decreases a.len(),
{
    if a.len() == 0 || b.len() == 0 {
        false
    } else if a[0] != b[0] {
        (a[0] as u32) < (b[0] as u32)
    } else {
        lex_lt(a.drop_first(), b.drop_first())
    }
}

/// The order in which labels are generated: shorter labels come first, and
/// labels of one length are ordered lexicographically.
pub open spec fn label_lt(a: Seq<char>, b: Seq<char>) -> bool {
    a.len() < b.len() || (a.len() == b.len() && lex_lt(a, b))
}

/// Sequences of equal length that agree before `k` and differ at `k` are
/// lexicographically ordered by position `k`.
proof fn lemma_lex_lt_point(a: Seq<char>, b: Seq<char>, k: int)
    requires
        a.len() == b.len(),
        0 <= k < a.len(),
        forall|j: int| 0 <= j < k ==> a[j] == b[j],
        (a[k] as u32) < (b[k] as u32),
    ensures
        lex_lt(a, b),
    decreases k,
{
    if k == 0 {
        assert(a[0] != b[0]);
    } else {
        assert(a[0] == b[0]);
        lemma_lex_lt_point(a.drop_first(), b.drop_first(), k - 1);
    }
}

/// Lexicographic order is transitive on equal lengths.
proof fn lemma_lex_lt_trans(a: Seq<char>, b: Seq<char>, c: Seq<char>)
    requires
        a.len() == b.len() == c.len(),
        lex_lt(a, b),
        lex_lt(b, c),
    ensures
        lex_lt(a, c),
    decreases a.len(),
{
    if a[0] == b[0] && b[0] == c[0] {
        lemma_lex_lt_trans(a.drop_first(), b.drop_first(), c.drop_first());
    } else if a[0] == c[0] {
        assert((a[0] as u32) < (b[0] as u32) || a[0] == b[0]);
        assert((b[0] as u32) < (c[0] as u32) || b[0] == c[0]);
        assert(false);
    } else {
    }
}

/// Appending one character each keeps the lexicographic order.
proof fn lemma_lex_lt_push(a: Seq<char>, b: Seq<char>, c: char, d: char)
    requires
        a.len() == b.len(),
        lex_lt(a, b),
    ensures
        lex_lt(a.push(c), b.push(d)),
    decreases a.len(),
{
    if a[0] != b[0] {
        assert(a.push(c)[0] == a[0]);
        assert(b.push(d)[0] == b[0]);
    } else {
        lemma_lex_lt_push(a.drop_first(), b.drop_first(), c, d);
        assert(a.push(c).drop_first() =~= a.drop_first().push(c));
        assert(b.push(d).drop_first() =~= b.drop_first().push(d));
    }
}

/// Each label is strictly below its successor.
pub proof fn lemma_next_label_lt(s: Seq<char>)
    requires
        wf_label(s),
    ensures
        label_lt(s, next_label(s)),
    decreases s.len(),
{
    if s.len() == 0 {
    } else if s.last() == 'z' {
        let d = s.drop_last();
        let m = next_label(d);
        assert(wf_label(d));
        lemma_next_label_lt(d);
        lemma_next_label_len(d);
        if m.len() == d.len() {
            lemma_lex_lt_push(d, m, 'z', 'a');
            assert(d.push('z') =~= s);
        } else {
            assert(next_label(s).len() == s.len() + 1);
        }
    } else {
        let c = s.last();
        assert('a' <= c && c < 'z');
        let nxt = s.drop_last().push(bump(c));
        assert(nxt.len() == s.len());
        assert(forall|j: int| 0 <= j < s.len() - 1 ==> s[j] == nxt[j]);
        assert((s[s.len() - 1] as u32) < (nxt[s.len() - 1] as u32));
        lemma_lex_lt_point(s, nxt, s.len() - 1);
    }
}

/// The generation order is transitive.
pub proof fn lemma_label_lt_trans(a: Seq<char>, b: Seq<char>, c: Seq<char>)
    requires
        label_lt(a, b),
        label_lt(b, c),
    ensures
        label_lt(a, c),
{
    if a.len() == b.len() && b.len() == c.len() {
        lemma_lex_lt_trans(a, b, c);
    }
}

/// Labels come out in strictly increasing order: the `i`-th label generated
/// is strictly below the `j`-th whenever `i < j`.
pub proof fn lemma_labels_strictly_increasing(i: nat, j: nat)
    requires
        i < j,
    ensures
        label_lt(label_at(i), label_at(j)),
    decreases j,
{
    lemma_label_at_wf((j - 1) as nat);
    lemma_next_label_lt(label_at((j - 1) as nat));
    if i < j - 1 {
        lemma_labels_strictly_increasing(i, (j - 1) as nat);
        lemma_label_lt_trans(label_at(i), label_at((j - 1) as nat), label_at(j));
    }
}

/// Any run of the generator yields, for a requested count `n`, exactly the
/// `n` labels of `labels_spec(n)`, strictly increasing under `label_lt`.
pub proof fn lemma_generate_increasing(labels: Seq<Seq<char>>, n: nat, i: int, j: int)
    requires
        labels == labels_spec(n),
        0 <= i < j < n,
    ensures
        label_lt(labels[i], labels[j]),
{
    lemma_labels_strictly_increasing(i as nat, j as nat);
}

/// Restarting the generator reproduces the identical sequence: two runs that
/// take the same number of labels agree completely.
pub proof fn lemma_generate_restartable(first: Seq<Seq<char>>, second: Seq<Seq<char>>, n: nat)
    requires
        first == labels_spec(n),
        second == labels_spec(n),
    ensures
        first == second,
{
}

/// A trailing run of `z` carries: the successor is the successor of the part
/// before the run, followed by one `a` per carried position.
proof fn lemma_trailing_z(s: Seq<char>, i: int)
    requires
        0 <= i <= s.len(),
        forall|j: int| i <= j < s.len() ==> s[j] == 'z',
    ensures
        next_label(s) == next_label(s.take(i)) + Seq::new((s.len() - i) as nat, |k: int| 'a'),
    decreases s.len() - i,
{
    if i == s.len() {
        assert(s.take(i) =~= s);
        assert(next_label(s.take(i)) + Seq::new(0, |k: int| 'a') =~= next_label(s));
    } else {
        assert(s.last() == 'z');
        let d = s.drop_last();
        assert(d =~= s.take(s.len() - 1));
        lemma_trailing_z(d, i);
        assert(d.take(i) =~= s.take(i));
        assert((next_label(s.take(i)) + Seq::new((d.len() - i) as nat, |k: int| 'a')).push('a')
            =~= next_label(s.take(i)) + Seq::new((s.len() - i) as nat, |k: int| 'a'));
    }
}

fn bump_exec(c: char) -> (r: char)
    requires
        'a' <= c && c < 'z',
    ensures
        r == bump(c),
{
    ((c as u8) + 1) as char
}

/// The lazy, restartable label generator. `new` starts before `a`; each call
/// of `next` advances to and returns the following label.
pub struct ProblemNames {
    idx: usize,
    now: Vec<char>,
}

impl ProblemNames {
    /// How many labels have been handed out.
    pub closed spec fn count(&self) -> nat {
        self.idx as nat
    }

    /// The label most recently handed out (empty before the first call).
    pub closed spec fn current(&self) -> Seq<char> {
        self.now@
    }

    /// The generator is exactly `count` steps into the label sequence.
    pub open spec fn wf(&self) -> bool {
        self.current() == state_at(self.count())
    }

    /// A fresh generator, whose first `next` yields `a`.
    pub fn new() -> (r: ProblemNames)
        ensures
            r.wf(),
            r.count() == 0,
    {
        ProblemNames { idx: 0, now: Vec::new() }
    }

    /// Advances to and returns the next label in bijective base-26 order.
    pub fn next(&mut self) -> (r: Option<String>)
        requires
            old(self).wf(),
            old(self).count() < usize::MAX,
        ensures
            final(self).wf(),
            final(self).count() == old(self).count() + 1,
            r is Some,
            r->0@ == label_at(old(self).count()),
    {
        proof {
            if self.idx > 0 {
                lemma_label_at_wf((self.idx - 1) as nat);
            }
        }
        let ghost s: Seq<char> = self.now@;
        assert(wf_label(s));
        let n = self.now.len();

        // Find the rightmost character that is not 'z'.
        let mut i: usize = n;
        loop
            invariant
                self.idx == old(self).idx,
                i <= n,
                n == self.now.len(),
                self.now@ == s,
                forall|j: int| i <= j < n ==> s[j] == 'z',
            ensures
                self.idx == old(self).idx,
                i <= n,
                n == self.now.len(),
                self.now@ == s,
                forall|j: int| i <= j < n ==> s[j] == 'z',
                i > 0 ==> s[i - 1] != 'z',
            decreases i,
        {
            if i == 0 {
                break ;
            }
            if self.now[i - 1] != 'z' {
                break ;
            }
            i -= 1;
        }

        // Wrap the trailing run of 'z' to 'a'.
        let mut k: usize = i;
        while k < n
            invariant
                self.idx == old(self).idx,
                i <= k <= n,
                n == self.now@.len(),
                n == s.len(),
                forall|j: int| 0 <= j < i ==> self.now@[j] == s[j],
                forall|j: int| i <= j < k ==> self.now@[j] == 'a',
                forall|j: int| k <= j < n ==> self.now@[j] == s[j],
            decreases n - k,
        {
            self.now.set(k, 'a');
            k += 1;
        }

        proof {
            lemma_trailing_z(s, i as int);
        }
        if i == 0 {
            // Every character carried: prepend the new leading 'a'.
            self.now.insert(0, 'a');
            proof {
                assert(s.take(0) =~= Seq::<char>::empty());
                assert(self.now@ =~= next_label(s));
            }
        } else {
            // Bump the rightmost non-'z' character.
            let c = self.now[i - 1];
            assert(c == s[i - 1]);
            self.now.set(i - 1, bump_exec(c));
            proof {
                let t = s.take(i as int);
                assert(t.last() == s[i - 1]);
                assert(t.drop_last() =~= s.take(i - 1));
                assert(next_label(t) == s.take(i - 1).push(bump(s[i - 1])));
                assert(self.now@ =~= next_label(s));
            }
        }
        self.idx += 1;
        let out = chars_to_string(&self.now);
        Some(out)
    }
}

/// Returns the first `n` problem labels, in generation order.
pub fn generate(n: usize) -> (r: Vec<String>)
    ensures
        r@.len() == n,
        forall|i: int| 0 <= i < n ==> r@[i]@ == label_at(i as nat),
        r.deep_view() == labels_spec(n as nat),
{
    let mut g = ProblemNames::new();
    let mut r: Vec<String> = Vec::new();
    let mut i: usize = 0;
    while i < n
        invariant
            g.wf(),
            g.count() == i,
            i <= n,
            r@.len() == i,
            forall|k: int| 0 <= k < i ==> r@[k]@ == label_at(k as nat),
        decreases n - i,
    {
        let lbl = g.next();
        r.push(lbl.unwrap());
        i += 1;
    }
    proof {
        assert(r.deep_view() =~~= labels_spec(n as nat));
    }
    r
}

} // verus!
