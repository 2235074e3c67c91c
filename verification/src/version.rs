//! Version handling for the semantic-version strategy: extracting a version
//! string from the text after a service-pattern match, completing a partial
//! version number, parsing it, and comparing parsed versions numerically.

use vstd::prelude::*;
use vstd::string::*;

verus! {

/// The `(major, minor, patch)` triple that `semver::Version::parse` yields on
/// the given characters, or `None` where parsing fails; the result depends on
/// the characters alone.
pub uninterp spec fn semver_triple(s: Seq<char>) -> Option<(u64, u64, u64)>;

/// Relies on `semver::Version::parse`: whether a string is a valid semantic
/// version and which numeric components it carries depend on the string
/// alone; pre-release and build metadata are dropped here, since range
/// comparison is purely numeric.
#[verifier::external_body]
pub fn parse_semver(s: &str) -> (r: Option<(u64, u64, u64)>)
    ensures
        r == semver_triple(s@),
{
    semver::Version::parse(s).ok().map(|v| (v.major, v.minor, v.patch))
}

/// Numeric order on parsed versions: compare major, then minor, then patch.
pub open spec fn triple_le(a: (u64, u64, u64), b: (u64, u64, u64)) -> bool {
    a.0 < b.0 || (a.0 == b.0 && (a.1 < b.1 || (a.1 == b.1 && a.2 <= b.2)))
}

/// Decides `triple_le` on two parsed versions.
pub fn version_le(a: (u64, u64, u64), b: (u64, u64, u64)) -> (r: bool)
    ensures
        r == triple_le(a, b),
{
    a.0 < b.0 || (a.0 == b.0 && (a.1 < b.1 || (a.1 == b.1 && a.2 <= b.2)))
}

/// Number of characters before the first double quote, or the whole length
/// where none occurs: the extent of the version string to extract.
pub open spec fn cut_len(s: Seq<char>) -> int
    decreases s.len(),
{
    if s.len() == 0 || s[0] == '"' {
        0
    } else {
        1 + cut_len(s.skip(1))
    }
}

/// The extracted version string: everything up to the first double quote.
pub open spec fn raw_version(s: Seq<char>) -> Seq<char> {
    s.take(cut_len(s))
}

/// Number of dots in a character sequence.
pub open spec fn dot_count(s: Seq<char>) -> int
    decreases s.len(),
{
    if s.len() == 0 {
        0
    } else {
        dot_count(s.drop_last()) + if s.last() == '.' {
            1int
        } else {
            0int
        }
    }
}

/// The normalization rule: a version string with fewer than two dots gets the
/// literal suffix `.0` appended, once per missing component, so that partial
/// versions such as `4.6` and `4` are compared as `4.6.0` and `4.0.0`.
pub open spec fn normalized_version(s: Seq<char>) -> Seq<char> {
    if dot_count(raw_version(s)) == 0 {
        raw_version(s) + ".0.0"@
    } else if dot_count(raw_version(s)) == 1 {
        raw_version(s) + ".0"@
    } else {
        raw_version(s)
    }
}

proof fn lemma_cut_len(s: Seq<char>)
    ensures
        0 <= cut_len(s) <= s.len(),
        forall|j: int| 0 <= j < cut_len(s) ==> s[j] != '"',
        cut_len(s) < s.len() ==> s[cut_len(s)] == '"',
    decreases s.len(),
{
    if s.len() == 0 || s[0] == '"' {
    } else {
        lemma_cut_len(s.skip(1));
        assert(forall|j: int| 0 <= j < cut_len(s) ==> s[j] != '"') by {
            assert(forall|j: int| 1 <= j < cut_len(s) ==> s[j] == s.skip(1)[j - 1]);
        }
        assert(cut_len(s) < s.len() ==> s[cut_len(s)] == s.skip(1)[cut_len(s) - 1]);
    }
}

/// Extracts the version string from the text that follows a service-pattern
/// match, applying the normalization rule: characters are consumed up to the
/// first double quote, and when fewer than two dots were consumed, `.0` is
/// appended once per missing component.
pub fn extract_version(suffix: &str) -> (r: String)
    ensures
        r@ == normalized_version(suffix@),
{
    proof {
        lemma_cut_len(suffix@);
    }
    let n = suffix.unicode_len();
    let mut i: usize = 0;
    let mut dots: usize = 0;
    while i < n && suffix.get_char(i) != '"'
        invariant
            n == suffix@.len(),
            i <= n,
            forall|j: int| 0 <= j < i ==> suffix@[j] != '"',
            dots == dot_count(suffix@.take(i as int)),
            dots <= i,
        decreases n - i,
    {
        if suffix.get_char(i) == '.' {
            dots = dots + 1;
        }
        proof {
            assert(suffix@.take(i + 1int).drop_last() =~= suffix@.take(i as int));
            assert(suffix@.take(i + 1int).last() == suffix@[i as int]);
        }
        i = i + 1;
    }
    proof {
        if cut_len(suffix@) < i {
            assert(suffix@[cut_len(suffix@)] != '"');
        }
        if i < cut_len(suffix@) {
            assert(suffix@[i as int] != '"');
        }
        assert(i == cut_len(suffix@));
    }
    let mut extracted = suffix.substring_char(0, i).to_owned();
    if dots == 0 {
        extracted.append(".0.0");
    } else if dots == 1 {
        extracted.append(".0");
    }
    extracted
}

} // verus!
