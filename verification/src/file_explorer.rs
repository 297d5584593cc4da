//! Which files of a source tree are looked at.

use vstd::prelude::*;
use crate::text::contains;
use crate::text::ends_with;
use crate::text::has_substring;
use crate::text::matches_at;
use crate::text::to_chars;

verus! {

/// The texts of `items`.
pub open spec fn item_views(items: Seq<String>) -> Seq<Seq<char>> {
    Seq::new(items.len(), |i: int| items[i]@)
}

/// Whether `path` ends with a dot and one of the extensions `extensions`.
pub open spec fn has_extension(path: Seq<char>, extensions: Seq<Seq<char>>) -> bool {
    exists|i: int| 0 <= i < extensions.len() && ends_with(path, seq!['.'] + #[trigger] extensions[i])
}

/// Whether `path` contains one of `excluded`.
pub open spec fn is_excluded(path: Seq<char>, excluded: Seq<Seq<char>>) -> bool {
    exists|i: int| 0 <= i < excluded.len() && contains(path, #[trigger] excluded[i])
}

/// Whether the file at `path` is looked at: it has one of the extensions and
/// its path contains nothing that is excluded.
pub open spec fn is_kept(path: Seq<char>, extensions: Seq<Seq<char>>, excluded: Seq<Seq<char>>)
    -> bool {
    has_extension(path, extensions) && !is_excluded(path, excluded)
}

/// Whether the file at `path` is looked at.
pub fn keep_file(path: &str, include_ext: &Vec<String>, exclude_path: &Vec<String>) -> (r: bool)
    ensures
        r == is_kept(path@, item_views(include_ext@), item_views(exclude_path@)),
{
    let chars = to_chars(path);
    let ghost extensions = item_views(include_ext@);
    let ghost excluded = item_views(exclude_path@);
    let mut included = false;
    let mut i: usize = 0;
    while i < include_ext.len() && !included
        invariant
            i <= include_ext.len(),
            chars@ == path@,
            extensions == item_views(include_ext@),
            included ==> has_extension(path@, extensions),
            !included ==> forall|j: int|
                0 <= j < i ==> !ends_with(path@, seq!['.'] + #[trigger] extensions[j]),
        decreases include_ext.len() - i + if included { 0int } else { 1int },
    {
        let mut suffix: Vec<char> = Vec::new();
        suffix.push('.');
        crate::text::append(&mut suffix, &to_chars(include_ext[i].as_str()));
        assert(suffix@ == seq!['.'] + extensions[i as int]);
        if chars.len() >= suffix.len() && matches_at(&chars, &suffix, chars.len() - suffix.len()) {
            included = true;
        } else {
            i += 1;
        }
    }
    if !included {
        return false;
    }
    let mut k: usize = 0;
    while k < exclude_path.len()
        invariant
            k <= exclude_path.len(),
            chars@ == path@,
            excluded == item_views(exclude_path@),
            forall|j: int| 0 <= j < k ==> !contains(path@, #[trigger] excluded[j]),
        decreases exclude_path.len() - k,
    {
        assert(excluded[k as int] == exclude_path@[k as int]@);
        if has_substring(&chars, &to_chars(exclude_path[k].as_str())) {
            return false;
        }
        k += 1;
    }
    true
}

} // verus!
