//! The set of patterns that a search still looks for.
//!
//! Patterns are only ever removed once a search runs, and `claim` both finds
//! a pattern that an address satisfies and removes it, so that a pattern is
//! handed out once. Callers that share the set across threads hold it under
//! one lock, which makes each `claim` atomic.

use vstd::prelude::*;
use vstd::string::*;
use crate::pattern::{chars_of, matches_at, matches_in, trim_onion, trimmed_len, Position};

verus! {

/// A pattern and the position where it must appear.
#[derive(Debug, Clone)]
pub struct Target {
    pub pattern: String,
    pub position: Position,
}

/// What identifies a target: its characters and its position.
pub type TargetKey = (Seq<char>, Position);

impl Target {
    pub open spec fn key(&self) -> TargetKey {
        (self.pattern@, self.position)
    }
}

/// The name `name` satisfies the target `k`.
pub open spec fn key_matches(name: Seq<char>, k: TargetKey) -> bool {
    matches_at(name, k.0, k.1)
}

/// No target occurs twice.
pub open spec fn distinct(v: Seq<TargetKey>) -> bool {
    forall|i: int, j: int| 0 <= i < j < v.len() ==> v[i] != v[j]
}

/// Index of the first target that `name` satisfies; `v.len()` if none does.
pub open spec fn first_match(v: Seq<TargetKey>, name: Seq<char>) -> int
    decreases v.len(),
{
    if v.len() == 0 {
        0
    } else if key_matches(name, v[0]) {
        0
    } else {
        1 + first_match(v.drop_first(), name)
    }
}

/// Number of targets that `name` satisfies.
pub open spec fn match_count(v: Seq<TargetKey>, name: Seq<char>) -> nat
    decreases v.len(),
{
    if v.len() == 0 {
        0
    } else {
        (if key_matches(name, v[0]) {
            1nat
        } else {
            0nat
        }) + match_count(v.drop_first(), name)
    }
}

/// The targets that `n` claims in a row with the name `name` hand out, in
/// order, starting from `v`.
pub open spec fn claimed(v: Seq<TargetKey>, name: Seq<char>, n: nat) -> Seq<TargetKey>
    decreases n,
{
    if n == 0 || first_match(v, name) >= v.len() {
        Seq::empty()
    } else {
        seq![v[first_match(v, name)]] + claimed(v.remove(first_match(v, name)), name, (n - 1) as nat)
    }
}

/// `first_match` is the index of the first satisfied target.
pub proof fn lemma_first_match(v: Seq<TargetKey>, name: Seq<char>)
    ensures
        0 <= first_match(v, name) <= v.len(),
        forall|j: int| 0 <= j < first_match(v, name) ==> !key_matches(name, #[trigger] v[j]),
        first_match(v, name) < v.len() ==> key_matches(name, v[first_match(v, name)]),
    decreases v.len(),
{
    if v.len() > 0 && !key_matches(name, v[0]) {
        lemma_first_match(v.drop_first(), name);
        assert forall|j: int| 0 <= j < first_match(v, name) implies !key_matches(
            name,
            #[trigger] v[j],
        ) by {
            if j > 0 {
                assert(v[j] == v.drop_first()[j - 1]);
            }
        }
    }
}

proof fn lemma_first_match_at(v: Seq<TargetKey>, name: Seq<char>, i: int)
    requires
        0 <= i <= v.len(),
        forall|j: int| 0 <= j < i ==> !key_matches(name, #[trigger] v[j]),
        i < v.len() ==> key_matches(name, v[i]),
    ensures
        first_match(v, name) == i,
{
    lemma_first_match(v, name);
    let f = first_match(v, name);
    if f < i {
        assert(!key_matches(name, v[f]));
    } else if f > i {
        assert(!key_matches(name, v[i]));
    }
}

proof fn lemma_count_none(v: Seq<TargetKey>, name: Seq<char>)
    requires
        forall|j: int| 0 <= j < v.len() ==> !key_matches(name, #[trigger] v[j]),
    ensures
        match_count(v, name) == 0,
    decreases v.len(),
{
    if v.len() > 0 {
        assert(!key_matches(name, v[0]));
        assert forall|j: int| 0 <= j < v.drop_first().len() implies !key_matches(
            name,
            #[trigger] v.drop_first()[j],
        ) by {
            assert(v.drop_first()[j] == v[j + 1]);
        }
        lemma_count_none(v.drop_first(), name);
    }
}

proof fn lemma_count_remove(v: Seq<TargetKey>, name: Seq<char>, i: int)
    requires
        0 <= i < v.len(),
        key_matches(name, v[i]),
    ensures
        match_count(v.remove(i), name) + 1 == match_count(v, name),
    decreases v.len(),
{
    if i == 0 {
        assert(v.remove(0) =~= v.drop_first());
    } else {
        let w = v.remove(i);
        assert(w[0] == v[0]);
        assert(w.drop_first() =~= v.drop_first().remove(i - 1));
        lemma_count_remove(v.drop_first(), name, i - 1);
    }
}

proof fn lemma_distinct_remove(v: Seq<TargetKey>, i: int)
    requires
        0 <= i < v.len(),
        distinct(v),
    ensures
        distinct(v.remove(i)),
        !v.remove(i).contains(v[i]),
        forall|k: TargetKey| v.remove(i).contains(k) ==> v.contains(k),
{
    let w = v.remove(i);
    assert forall|a: int, b: int| 0 <= a < b < w.len() implies w[a] != w[b] by {
        let a2 = if a < i { a } else { a + 1 };
        let b2 = if b < i { b } else { b + 1 };
        assert(w[a] == v[a2] && w[b] == v[b2]);
    }
    if w.contains(v[i]) {
        let a = choose|a: int| 0 <= a < w.len() && w[a] == v[i];
        let a2 = if a < i { a } else { a + 1 };
        assert(w[a] == v[a2]);
    }
    assert forall|k: TargetKey| w.contains(k) implies v.contains(k) by {
        let a = choose|a: int| 0 <= a < w.len() && w[a] == k;
        let a2 = if a < i { a } else { a + 1 };
        assert(w[a] == v[a2]);
    }
}

/// Claims with one address, however many are made, hand out each target that
/// the address satisfies exactly once: `n` claims yield `min(n, K)` targets
/// for the `K` that it satisfies, all distinct, each one of the set's and
/// each satisfied by the address.
pub proof fn lemma_claims_exclusive(v: Seq<TargetKey>, name: Seq<char>, n: nat)
    requires
        distinct(v),
    ensures
        claimed(v, name, n).len() == (if n < match_count(v, name) {
            n
        } else {
            match_count(v, name)
        }),
        distinct(claimed(v, name, n)),
        forall|k: TargetKey| #[trigger]
            claimed(v, name, n).contains(k) ==> v.contains(k) && key_matches(name, k),
    decreases n,
{
    lemma_first_match(v, name);
    let f = first_match(v, name);
    if f >= v.len() {
        lemma_count_none(v, name);
    } else if n > 0 {
        let w = v.remove(f);
        lemma_count_remove(v, name, f);
        lemma_distinct_remove(v, f);
        lemma_claims_exclusive(w, name, (n - 1) as nat);
        let rest = claimed(w, name, (n - 1) as nat);
        let c = claimed(v, name, n);
        assert(c == seq![v[f]] + rest);
        assert forall|a: int, b: int| 0 <= a < b < c.len() implies c[a] != c[b] by {
            if a == 0 {
                assert(c[b] == rest[b - 1]);
                assert(rest.contains(c[b]));
            } else {
                assert(c[a] == rest[a - 1] && c[b] == rest[b - 1]);
            }
        }
        assert forall|k: TargetKey| #[trigger] c.contains(k) implies v.contains(k) && key_matches(
            name,
            k,
        ) by {
            let a = choose|a: int| 0 <= a < c.len() && c[a] == k;
            if a > 0 {
                assert(rest[a - 1] == k);
                assert(rest.contains(k));
            }
        }
    }
}

struct Entry {
    target: Target,
    chars: Vec<char>,
}

/// The outstanding targets of a search, each held once.
pub struct TargetSet {
    entries: Vec<Entry>,
}

impl View for TargetSet {
    type V = Seq<TargetKey>;

    closed spec fn view(&self) -> Seq<TargetKey> {
        Seq::new(self.entries@.len(), |i: int| self.entries@[i].target.key())
    }
}

fn same_chars(a: &Vec<char>, b: &Vec<char>) -> (r: bool)
    ensures
        r == (a@ == b@),
{
    if a.len() != b.len() {
        return false;
    }
    let mut i: usize = 0;
    while i < a.len()
        invariant
            a@.len() == b@.len(),
            i <= a@.len(),
            forall|j: int| 0 <= j < i ==> a@[j] == b@[j],
        decreases a@.len() - i,
    {
        if a[i] != b[i] {
            return false;
        }
        i = i + 1;
    }
    assert(a@ =~= b@);
    true
}

impl TargetSet {
    /// The set's internal invariant: each entry's characters are its
    /// pattern's, and no target occurs twice.
    pub closed spec fn wf(&self) -> bool {
        &&& forall|i: int|
            0 <= i < self.entries@.len() ==> #[trigger] self.entries@[i].chars@
                == self.entries@[i].target.pattern@
        &&& distinct(self@)
    }

    /// A well-formed set holds each target once.
    pub proof fn lemma_distinct(&self)
        requires
            self.wf(),
        ensures
            distinct(self@),
    {
    }

    /// An empty set.
    pub fn new() -> (r: Self)
        ensures
            r.wf(),
            distinct(r@),
            r@ == Seq::<TargetKey>::empty(),
    {
        let r = TargetSet { entries: Vec::new() };
        assert(r@ =~= Seq::<TargetKey>::empty());
        r
    }

    /// Number of outstanding targets.
    pub fn len(&self) -> (r: usize)
        ensures
            r == self@.len(),
    {
        self.entries.len()
    }

    /// Whether no target is left.
    pub fn is_empty(&self) -> (r: bool)
        ensures
            r == (self@.len() == 0),
    {
        self.entries.len() == 0
    }

    /// Whether `t` is among the outstanding targets.
    pub fn contains(&self, t: &Target) -> (r: bool)
        requires
            self.wf(),
        ensures
            r == self@.contains(t.key()),
    {
        let chars = chars_of(t.pattern.as_str());
        let mut i: usize = 0;
        while i < self.entries.len()
            invariant
                self.wf(),
                chars@ == t.pattern@,
                i <= self.entries@.len(),
                forall|j: int| 0 <= j < i ==> self@[j] != t.key(),
            decreases self.entries@.len() - i,
        {
            let e = &self.entries[i];
            if e.target.position == t.position && same_chars(&e.chars, &chars) {
                assert(self@[i as int] == t.key());
                return true;
            }
            i = i + 1;
        }
        assert forall|j: int| 0 <= j < self@.len() implies self@[j] != t.key() by {}
        false
    }

    /// Add `t` unless it is already there; returns whether it was added.
    pub fn insert(&mut self, t: Target) -> (added: bool)
        requires
            old(self).wf(),
        ensures
            final(self).wf(),
            distinct(final(self)@),
            added == !old(self)@.contains(t.key()),
            added ==> final(self)@ == old(self)@.push(t.key()),
            !added ==> final(self)@ == old(self)@,
    {
        if self.contains(&t) {
            return false;
        }
        let chars = chars_of(t.pattern.as_str());
        let ghost key = t.key();
        self.entries.push(Entry { target: t, chars });
        assert(self@ =~= old(self)@.push(key));
        true
    }

    /// A set of prefix targets, one for each distinct text of `prefixes`.
    pub fn from_prefixes(prefixes: &Vec<String>) -> (r: Self)
        ensures
            r.wf(),
            distinct(r@),
            forall|k: TargetKey| #[trigger]
                r@.contains(k) <==> k.1 == Position::Prefix && exists|i: int|
                    0 <= i < prefixes@.len() && prefixes@[i]@ == k.0,
    {
        let mut r = TargetSet::new();
        let mut i: usize = 0;
        while i < prefixes.len()
            invariant
                r.wf(),
                i <= prefixes@.len(),
                forall|k: TargetKey| #[trigger]
                    r@.contains(k) <==> k.1 == Position::Prefix && exists|j: int|
                        0 <= j < i && prefixes@[j]@ == k.0,
            decreases prefixes@.len() - i,
        {
            let t = Target { pattern: prefixes[i].clone(), position: Position::Prefix };
            let ghost key = t.key();
            let ghost before = r@;
            r.insert(t);
            assert forall|k: TargetKey| #[trigger]
                r@.contains(k) <==> k.1 == Position::Prefix && exists|j: int|
                    0 <= j < i + 1 && prefixes@[j]@ == k.0 by {
                if r@.contains(k) && k != key {
                    assert(before.contains(k));
                }
                if k.1 == Position::Prefix && (exists|j: int|
                    0 <= j < i + 1 && prefixes@[j]@ == k.0) {
                    let j = choose|j: int| 0 <= j < i + 1 && prefixes@[j]@ == k.0;
                    if j == i {
                        assert(k == key);
                        if !before.contains(key) {
                            assert(r@[before.len() as int] == key);
                        }
                    } else {
                        assert(before.contains(k));
                        let m = choose|m: int| 0 <= m < before.len() && before[m] == k;
                        assert(r@[m] == k);
                    }
                }
            }
            i = i + 1;
        }
        r
    }

    /// Find the first outstanding target that `onion` (less its `.onion`
    /// suffix) satisfies, remove it and return it; `None`, with the set
    /// unchanged, when the address satisfies none.
    pub fn claim(&mut self, onion: &str) -> (r: Option<Target>)
        requires
            old(self).wf(),
        ensures
            final(self).wf(),
            distinct(final(self)@),
            ({
                let f = first_match(old(self)@, trim_onion(onion@));
                match r {
                    Some(t) => f < old(self)@.len() && t.key() == old(self)@[f] && final(self)@
                        == old(self)@.remove(f),
                    None => f == old(self)@.len() && final(self)@ == old(self)@,
                }
            }),
    {
        let s = chars_of(onion);
        let end = trimmed_len(&s);
        let ghost name = trim_onion(onion@);
        let mut i: usize = 0;
        while i < self.entries.len()
            invariant
                self.wf(),
                *self == *old(self),
                name == trim_onion(onion@),
                end <= s@.len(),
                s@.subrange(0, end as int) == name,
                i <= self.entries@.len(),
                forall|j: int| 0 <= j < i ==> !key_matches(name, #[trigger] self@[j]),
            decreases self.entries@.len() - i,
        {
            let e = &self.entries[i];
            if matches_in(&s, end, &e.chars, e.target.position) {
                assert(key_matches(name, self@[i as int]));
                proof {
                    lemma_first_match_at(self@, name, i as int);
                    lemma_distinct_remove(self@, i as int);
                }
                let ghost before = self@;
                let ghost old_entries = self.entries@;
                let removed = self.entries.remove(i);
                assert(self@ =~= before.remove(i as int));
                assert forall|j: int| 0 <= j < self.entries@.len() implies #[trigger] self.entries@[j].chars@
                    == self.entries@[j].target.pattern@ by {
                    if j >= i {
                        assert(self.entries@[j] == old_entries[j + 1]);
                    }
                }
                return Some(removed.target);
            }
            i = i + 1;
        }
        proof {
            lemma_first_match_at(self@, name, i as int);
        }
        None
    }

    /// The outstanding targets, in the set's order.
    pub fn targets(&self) -> (r: Vec<Target>)
        ensures
            r@.len() == self@.len(),
            forall|i: int| 0 <= i < r@.len() ==> #[trigger] r@[i].key() == self@[i],
    {
        let mut r: Vec<Target> = Vec::new();
        let mut i: usize = 0;
        while i < self.entries.len()
            invariant
                i <= self.entries@.len(),
                r@.len() == i,
                forall|j: int| 0 <= j < i ==> #[trigger] r@[j].key() == self@[j],
            decreases self.entries@.len() - i,
        {
            let t = &self.entries[i].target;
            r.push(Target { pattern: t.pattern.clone(), position: t.position });
            i = i + 1;
        }
        r
    }
}

} // verus!
