//! Target patterns: where in the onion name they must appear, how a name is
//! tested against them, and which texts are accepted as patterns.

use vstd::prelude::*;
use vstd::string::*;
use crate::base32::{all_b32, decode_lower, is_b32_char};
use crate::error::GeneratorError;

verus! {

/// The longest pattern that a search accepts.
pub const MAX_PATTERN_LEN: usize = 12;

/// Where a pattern must appear in the onion name.
#[derive(Clone, Copy, PartialEq, Eq, Debug, Structural)]
pub enum Position {
    Prefix,
    Suffix,
    Anywhere,
}

impl Position {
    /// A short name for the position.
    pub fn label(&self) -> (r: &'static str)
        ensures
            r@ == match *self {
                Position::Prefix => "Prefix"@,
                Position::Suffix => "Suffix"@,
                Position::Anywhere => "Anywhere"@,
            },
    {
        match self {
            Position::Prefix => "Prefix",
            Position::Suffix => "Suffix",
            Position::Anywhere => "Anywhere",
        }
    }
}

/// `s` begins with `p`.
pub open spec fn starts_with(s: Seq<char>, p: Seq<char>) -> bool {
    p.len() <= s.len() && s.subrange(0, p.len() as int) == p
}

/// `s` ends with `p`.
pub open spec fn ends_with(s: Seq<char>, p: Seq<char>) -> bool {
    p.len() <= s.len() && s.subrange(s.len() - p.len(), s.len() as int) == p
}

/// `p` occurs in `s` at index `i`.
pub open spec fn occurs_at(s: Seq<char>, p: Seq<char>, i: int) -> bool {
    0 <= i && i + p.len() <= s.len() && s.subrange(i, i + p.len()) == p
}

/// `p` occurs somewhere in `s`.
pub open spec fn contains(s: Seq<char>, p: Seq<char>) -> bool {
    exists|i: int| occurs_at(s, p, i)
}

/// `name` satisfies the pattern `p` at `pos`.
pub open spec fn matches_at(name: Seq<char>, p: Seq<char>, pos: Position) -> bool {
    match pos {
        Position::Prefix => starts_with(name, p),
        Position::Suffix => ends_with(name, p),
        Position::Anywhere => contains(name, p),
    }
}

/// `s` with every trailing `.onion` removed.
pub open spec fn trim_onion(s: Seq<char>) -> Seq<char>
    decreases s.len(),
{
    if ends_with(s, crate::onion::onion_suffix()) {
        trim_onion(s.subrange(0, s.len() - 6))
    } else {
        s
    }
}

/// What `str::to_lowercase` returns for `s`.
pub uninterp spec fn lower_of(s: Seq<char>) -> Seq<char>;

/// Relies on `str::to_lowercase`: the result depends on the characters alone.
#[verifier::external_body]
fn lowercase(s: &str) -> (r: String)
    ensures
        r@ == lower_of(s@),
{
    s.to_lowercase()
}

/// The characters of `s`, one by one.
pub fn chars_of(s: &str) -> (r: Vec<char>)
    ensures
        r@ == s@,
{
    let n = s.unicode_len();
    let mut r: Vec<char> = Vec::new();
    let mut i: usize = 0;
    while i < n
        invariant
            n == s@.len(),
            i <= n,
            r@ == s@.subrange(0, i as int),
        decreases n - i,
    {
        r.push(s.get_char(i));
        i = i + 1;
        assert(r@ =~= s@.subrange(0, i as int));
    }
    assert(r@ =~= s@);
    r
}

/// Whether `p` occurs in `s` at index `at`.
fn occurs_at_exec(s: &Vec<char>, end: usize, p: &Vec<char>, at: usize) -> (r: bool)
    requires
        end <= s@.len(),
    ensures
        r == occurs_at(s@.subrange(0, end as int), p@, at as int),
{
    let ghost t = s@.subrange(0, end as int);
    if at > end || p.len() > end - at {
        return false;
    }
    let mut k: usize = 0;
    while k < p.len()
        invariant
            at + p@.len() <= end <= s@.len(),
            t == s@.subrange(0, end as int),
            k <= p@.len(),
            forall|j: int| 0 <= j < k ==> s@[at + j] == p@[j],
        decreases p@.len() - k,
    {
        if s[at + k] != p[k] {
            assert(t.subrange(at as int, at + p@.len())[k as int] != p@[k as int]);
            return false;
        }
        k = k + 1;
    }
    assert(t.subrange(at as int, at + p@.len()) =~= p@);
    true
}

/// Whether the first `end` characters of `s` satisfy `p` at `pos`.
pub fn matches_in(s: &Vec<char>, end: usize, p: &Vec<char>, pos: Position) -> (r: bool)
    requires
        end <= s@.len(),
    ensures
        r == matches_at(s@.subrange(0, end as int), p@, pos),
{
    let ghost t = s@.subrange(0, end as int);
    match pos {
        Position::Prefix => occurs_at_exec(s, end, p, 0),
        Position::Suffix => {
            if p.len() > end {
                false
            } else {
                occurs_at_exec(s, end, p, end - p.len())
            }
        },
        Position::Anywhere => {
            if p.len() > end {
                return false;
            }
            if p.len() == 0 {
                assert(t.subrange(0, 0) =~= p@);
                assert(occurs_at(t, p@, 0));
                return true;
            }
            let last = end - p.len();
            let mut i: usize = 0;
            while i <= last
                invariant
                    end <= s@.len(),
                    last == end - p@.len(),
                    last < end,
                    pos == Position::Anywhere,
                    t == s@.subrange(0, end as int),
                    forall|j: int| 0 <= j < i ==> !occurs_at(t, p@, j),
                decreases last + 1 - i,
            {
                if occurs_at_exec(s, end, p, i) {
                    assert(occurs_at(t, p@, i as int));
                    return true;
                }
                i = i + 1;
            }
            assert forall|j: int| !occurs_at(t, p@, j) by {
                if 0 <= j < i {
                } else if j >= i {
                    assert(j + p@.len() > t.len());
                }
            }
            false
        },
    }
}

/// The length of `s` once every trailing `.onion` is removed.
pub fn trimmed_len(s: &Vec<char>) -> (r: usize)
    ensures
        r <= s@.len(),
        s@.subrange(0, r as int) == trim_onion(s@),
{
    let mut end = s.len();
    let suffix: Vec<char> = vec!['.', 'o', 'n', 'i', 'o', 'n'];
    assert(suffix@ =~= crate::onion::onion_suffix());
    assert(s@.subrange(0, end as int) =~= s@);
    while end >= 6 && occurs_at_exec(s, end, &suffix, end - 6)
        invariant
            end <= s@.len(),
            suffix@ == crate::onion::onion_suffix(),
            trim_onion(s@.subrange(0, end as int)) == trim_onion(s@),
        decreases end,
    {
        let ghost t = s@.subrange(0, end as int);
        assert(ends_with(t, suffix@));
        assert(t.subrange(0, t.len() - 6) =~= s@.subrange(0, end - 6));
        end = end - 6;
    }
    let ghost t = s@.subrange(0, end as int);
    assert(!ends_with(t, suffix@));
    end
}

/// Whether `onion`, less its `.onion` suffix, satisfies the already
/// case-folded pattern `folded` at `position`.
pub fn pattern_matches_folded(onion: &str, folded: &str, position: Position) -> (r: bool)
    ensures
        r == matches_at(trim_onion(onion@), folded@, position),
{
    let s = chars_of(onion);
    let p = chars_of(folded);
    let end = trimmed_len(&s);
    matches_in(&s, end, &p, position)
}

/// Check if a pattern matches an onion address at the given position: the
/// pattern is case-folded and tested against the name without `.onion`.
pub fn pattern_matches(onion: &str, pattern: &str, position: Position) -> (r: bool)
    ensures
        r == matches_at(trim_onion(onion@), lower_of(pattern@), position),
{
    let folded = lowercase(pattern);
    pattern_matches_folded(onion, folded.as_str(), position)
}

/// Whether `p` is accepted as a pattern: one to twelve base32 characters.
pub open spec fn valid_pattern(p: Seq<char>) -> bool {
    1 <= p.len() <= MAX_PATTERN_LEN && all_b32(p)
}

/// Check that `pattern` is a valid target; the error names it.
pub fn validate_pattern(pattern: &str) -> (r: Result<(), GeneratorError>)
    ensures
        r is Ok <==> valid_pattern(pattern@),
        r matches Err(e) ==> e matches GeneratorError::InvalidPrefix(s) && s@ == pattern@,
{
    let n = pattern.unicode_len();
    let mut padded = String::from_str(pattern);
    padded.append("aa");
    proof {
        reveal_strlit("aa");
    }
    let decoded = decode_lower(padded.as_str());
    assert(all_b32(padded@) <==> all_b32(pattern@)) by {
        assert(padded@ =~= pattern@ + "aa"@);
        if all_b32(pattern@) {
            assert forall|i: int| 0 <= i < padded@.len() implies #[trigger] is_b32_char(
                padded@[i],
            ) by {
                if i >= pattern@.len() {
                    assert(padded@[i] == 'a');
                }
            }
        }
        if all_b32(padded@) {
            assert forall|i: int| 0 <= i < pattern@.len() implies #[trigger] is_b32_char(
                pattern@[i],
            ) by {
                assert(padded@[i] == pattern@[i]);
            }
        }
    }
    if decoded.is_none() || n < 1 || n > MAX_PATTERN_LEN {
        return Err(GeneratorError::InvalidPrefix(String::from_str(pattern)));
    }
    Ok(())
}

} // verus!
