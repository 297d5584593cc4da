//! Regular expressions, matched by the `regex` crate. What a search returns
//! is not proved here: each search has a name, and the functions below are
//! believed to return what that name stands for.

use vstd::prelude::*;

verus! {

/// The error of `regex::Regex::new`, of which nothing is known here.
#[verifier::external_type_specification]
#[verifier::external_body]
pub struct ExRegexError(regex::Error);

/// The successive matches of `pattern` in `haystack`, each as the byte offsets
/// of the start and the end of the whole match and, where the first capture
/// group took part in it, of that group. `None` where `pattern` does not
/// compile.
pub uninterp spec fn regex_captures_iter(pattern: Seq<char>, haystack: Seq<char>) -> Option<
    Seq<(usize, usize, Option<(usize, usize)>)>,
>;

/// The first match of `pattern` in `haystack`, in the shape of one element of
/// `regex_captures_iter`: the inner `None` where nothing matches, the outer
/// where `pattern` does not compile.
pub uninterp spec fn regex_captures(pattern: Seq<char>, haystack: Seq<char>) -> Option<
    Option<(usize, usize, Option<(usize, usize)>)>,
>;

/// Whether `pattern` matches anywhere in `haystack`. `None` where `pattern`
/// does not compile.
pub uninterp spec fn regex_is_match(pattern: Seq<char>, haystack: Seq<char>) -> Option<bool>;

/// `haystack` with every match of `pattern` replaced by the expansion of
/// `replacement`. `None` where `pattern` does not compile.
pub uninterp spec fn regex_replace_all(
    pattern: Seq<char>,
    haystack: Seq<char>,
    replacement: Seq<char>,
) -> Option<Seq<char>>;

/// Calls `regex::Regex::new` on `pattern` and `Regex::captures_iter` on
/// `haystack`, and hands out the offsets of each match and of its first
/// group. Believed: the result is `regex_captures_iter` of the two texts, and
/// the error comes exactly where the pattern does not compile.
#[verifier::external_body]
pub(crate) fn captures_iter(pattern: &str, haystack: &str) -> (r: Result<
    Vec<(usize, usize, Option<(usize, usize)>)>,
    regex::Error,
>)
    ensures
        match r {
            Ok(found) => regex_captures_iter(pattern@, haystack@) == Some(found@),
            Err(_) => regex_captures_iter(pattern@, haystack@) is None,
        },
{
    let re = regex::Regex::new(pattern)?;
    let spans = re.captures_iter(haystack).map(
        |c| {
            let whole = c.get(0).unwrap();
            (whole.start(), whole.end(), c.get(1).map(|g| (g.start(), g.end())))
        },
    );
    Ok(spans.collect())
}

/// Calls `regex::Regex::new` on `pattern` and `Regex::captures` on
/// `haystack`, and hands out the offsets of the match and of its first group.
/// Believed: the result is `regex_captures` of the two texts, and the error
/// comes exactly where the pattern does not compile.
#[verifier::external_body]
pub(crate) fn captures(pattern: &str, haystack: &str) -> (r: Result<
    Option<(usize, usize, Option<(usize, usize)>)>,
    regex::Error,
>)
    ensures
        match r {
            Ok(found) => regex_captures(pattern@, haystack@) == Some(found),
            Err(_) => regex_captures(pattern@, haystack@) is None,
        },
{
    let re = regex::Regex::new(pattern)?;
    let found = re.captures(haystack).map(
        |c| {
            let whole = c.get(0).unwrap();
            (whole.start(), whole.end(), c.get(1).map(|g| (g.start(), g.end())))
        },
    );
    Ok(found)
}

/// Calls `regex::Regex::new` on `pattern` and `Regex::is_match` on
/// `haystack`. Believed: the result is `regex_is_match` of the two texts, and
/// the error comes exactly where the pattern does not compile.
#[verifier::external_body]
pub(crate) fn is_match(pattern: &str, haystack: &str) -> (r: Result<bool, regex::Error>)
    ensures
        match r {
            Ok(found) => regex_is_match(pattern@, haystack@) == Some(found),
            Err(_) => regex_is_match(pattern@, haystack@) is None,
        },
{
    let re = regex::Regex::new(pattern)?;
    Ok(re.is_match(haystack))
}

/// Calls `regex::Regex::new` on `pattern` and `Regex::replace_all` on
/// `haystack` and `replacement`. Believed: the result is `regex_replace_all`
/// of the three texts, and the error comes exactly where the pattern does not
/// compile.
#[verifier::external_body]
pub(crate) fn replace_all(pattern: &str, haystack: &str, replacement: &str) -> (r: Result<
    String,
    regex::Error,
>)
    ensures
        match r {
            Ok(text) => regex_replace_all(pattern@, haystack@, replacement@) == Some(text@),
            Err(_) => regex_replace_all(pattern@, haystack@, replacement@) is None,
        },
{
    let re = regex::Regex::new(pattern)?;
    Ok(re.replace_all(haystack, replacement).into_owned())
}

} // verus!
