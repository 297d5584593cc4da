//! Cleaning up the command lines that a response carries.

use vstd::prelude::*;
use crate::pattern::regex_replace_all;
use crate::pattern::replace_all;
use crate::text::from_chars;
use crate::text::to_chars;
use crate::text::trim;
use crate::text::trimmed;

verus! {

/// A line that starts with `#`, up to its end.
pub const COMMENT_PATTERN: &'static str = "(?m)^#.*$";

/// `text` where the search for comments has emptied every comment line, or
/// `text` itself where it is empty or that search cannot be made.
pub open spec fn without_comment_lines(text: Seq<char>) -> Seq<char> {
    if text.len() == 0 {
        text
    } else {
        match regex_replace_all(COMMENT_PATTERN@, text, ""@) {
            Some(cleaned) => cleaned,
            None => text,
        }
    }
}

/// What `remove_comments` makes of `text`.
pub open spec fn comments_removed(text: Seq<char>) -> Seq<char> {
    trim(without_comment_lines(text))
}

/// `cleaned`, which is `text` after the search for comments, without the
/// white space around it.
pub fn finish_command(cleaned: &str) -> (r: String)
    ensures
        r@ == trim(cleaned@),
{
    let chars = to_chars(cleaned);
    let kept = trimmed(&chars);
    from_chars(&kept)
}

/// `text` without its comment lines and without the white space around it.
pub fn remove_comments(text: &str) -> (r: String)
    ensures
        r@ == comments_removed(text@),
{
    if text.is_empty() {
        return finish_command(text);
    }
    match replace_all(COMMENT_PATTERN, text, "") {
        Ok(cleaned) => finish_command(cleaned.as_str()),
        Err(_) => finish_command(text),
    }
}

/// An empty text has no comments: it stays empty.
pub proof fn lemma_empty_command()
    ensures
        comments_removed(Seq::empty()) == Seq::<char>::empty(),
{
}

} // verus!
