//! Regular-expression filters.
use vstd::prelude::*;

use regex_lite::Regex;

use crate::text;

verus! {

/// Whether `Regex::new` accepts a pattern on a machine with words of
/// `word_bits` bits.
pub uninterp spec fn regex_compiles(pattern: Seq<char>, word_bits: u32) -> bool;

/// Whether `Regex::is_match` of the compiled pattern finds a match in a text.
pub uninterp spec fn regex_is_match(pattern: Seq<char>, haystack: Seq<char>) -> bool;

/// Whether a pattern is accepted on this machine.
pub open spec fn pattern_ok(pattern: Seq<char>) -> bool {
    regex_compiles(pattern, usize::BITS)
}

/// Whether an accepted pattern occurs in a text.
pub open spec fn pattern_found(pattern: Seq<char>, haystack: Seq<char>) -> bool {
    pattern_ok(pattern) && regex_is_match(pattern, haystack)
}

/// `regex_lite::Regex::new`: it either compiles the pattern or reports an
/// error, and which of the two happens depends on the pattern and, through the
/// limit on the size of the compiled program, on the width of a machine word.
#[verifier::external_body]
pub(crate) fn pattern_compiles(pattern: &str) -> (r: bool)
    ensures
        r == regex_compiles(pattern@, usize::BITS),
{
    Regex::new(pattern).is_ok()
}

/// `regex_lite::Regex::is_match` on the compiled pattern: true exactly when
/// there is a match anywhere in the text. A pattern that does not compile finds
/// nothing.
#[verifier::external_body]
pub(crate) fn pattern_is_match(pattern: &str, haystack: &str) -> (r: bool)
    ensures
        r == (regex_compiles(pattern@, usize::BITS) && regex_is_match(pattern@, haystack@)),
{
    match Regex::new(pattern) {
        Ok(re) => re.is_match(haystack),
        Err(_) => false,
    }
}

/// What one filter says: an absent pattern rejects nothing; a present one must
/// be found, or must not be found if it excludes.
pub open spec fn filter_passes(pattern: Option<String>, exclude: bool, value: Seq<char>) -> bool {
    match pattern {
        None => true,
        Some(p) => pattern_found(p@, value) != exclude,
    }
}

/// What one filter makes of a search result.
pub open spec fn says(found: bool, exclude: bool) -> bool {
    found != exclude
}

/// What one filter makes of a search result.
pub fn filter_says(found: bool, exclude: bool) -> (r: bool)
    ensures
        r == says(found, exclude),
{
    found != exclude
}

/// What one filter says.
pub fn filter_ok(pattern: &Option<String>, exclude: bool, value: &str) -> (r: bool)
    ensures
        r == filter_passes(*pattern, exclude, value@),
{
    match pattern {
        None => true,
        Some(p) => filter_says(pattern_is_match(p.as_str(), value), exclude),
    }
}

/// The complaint about a pattern that does not compile.
pub open spec fn bad_pattern(pattern: Seq<char>, key: Seq<char>) -> Seq<char> {
    "invalid regex pattern '"@ + pattern + "' for key '"@ + key + "'\n"@
}

/// Whether an optional pattern is usable.
pub open spec fn usable(pattern: Option<String>) -> bool {
    pattern is Some ==> pattern_ok(pattern->0@)
}

/// The complaint about a pattern, given whether it compiled.
pub fn pattern_outcome(pattern: &str, key: &str, compiled: bool) -> (r: Result<(), String>)
    ensures
        r is Ok <==> compiled,
        r is Err ==> r->Err_0@ == bad_pattern(pattern@, key@),
{
    if compiled {
        Ok(())
    } else {
        let mut out = "invalid regex pattern '".to_owned();
        out.append(pattern);
        out.append("' for key '");
        out.append(key);
        out.append("'\n");
        Err(out)
    }
}

/// Check an optional pattern.
pub fn check_pattern(pattern: &Option<String>, key: &str) -> (r: Result<(), String>)
    ensures
        r is Ok <==> usable(*pattern),
        r is Err ==> r->Err_0@ == bad_pattern(pattern->0@, key@),
{
    match pattern {
        None => Ok(()),
        Some(p) => pattern_outcome(p.as_str(), key, pattern_compiles(p.as_str())),
    }
}

} // verus!
