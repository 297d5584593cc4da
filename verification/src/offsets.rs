//! Byte offsets into the UTF-8 encoding of a text, and the character indices
//! they stand for.

use vstd::prelude::*;

verus! {

/// The number of bytes that encode `c` in UTF-8.
pub open spec fn utf8_width(c: char) -> int {
    let u = c as u32;
    if u < 0x80 {
        1
    } else if u < 0x800 {
        2
    } else if u < 0x10000 {
        3
    } else {
        4
    }
}

/// The number of bytes that encode `s` in UTF-8.
pub open spec fn utf8_len(s: Seq<char>) -> int
    decreases s.len(),
{
    if s.len() == 0 {
        0
    } else {
        utf8_len(s.drop_last()) + utf8_width(s.last())
    }
}

/// The first `k` characters of `s` take exactly `offset` bytes.
pub open spec fn is_boundary(s: Seq<char>, offset: int, k: int) -> bool {
    0 <= k <= s.len() && utf8_len(s.take(k)) == offset
}

/// The number of characters of `s` that lie before byte `offset` of its
/// encoding; `None` where `offset` falls inside a character or after the end.
pub open spec fn char_index_at(s: Seq<char>, offset: int) -> Option<int> {
    if exists|k: int| is_boundary(s, offset, k) {
        Some(choose|k: int| is_boundary(s, offset, k))
    } else {
        None
    }
}

/// A longer prefix takes more bytes.
pub proof fn lemma_utf8_len_grows(s: Seq<char>, j: int, k: int)
    requires
        0 <= j < k <= s.len(),
    ensures
        utf8_len(s.take(j)) < utf8_len(s.take(k)),
    decreases k,
{
    assert(s.take(k).drop_last() == s.take(k - 1));
    if j + 1 < k {
        lemma_utf8_len_grows(s, j, k - 1);
    }
}

/// At most one prefix of `s` takes `offset` bytes.
pub proof fn lemma_boundary_unique(s: Seq<char>, offset: int, j: int, k: int)
    requires
        is_boundary(s, offset, j),
        is_boundary(s, offset, k),
    ensures
        j == k,
{
    if j < k {
        lemma_utf8_len_grows(s, j, k);
    }
    if k < j {
        lemma_utf8_len_grows(s, k, j);
    }
}

/// The number of bytes that encode `c`.
pub fn width_of(c: char) -> (w: usize)
    ensures
        w == utf8_width(c),
{
    let u: u32 = c as u32;
    if u < 0x80 {
        1
    } else if u < 0x800 {
        2
    } else if u < 0x10000 {
        3
    } else {
        4
    }
}

/// The character index that byte `offset` stands for.
pub fn char_index(s: &Vec<char>, offset: usize) -> (r: Option<usize>)
    ensures
        match r {
            Some(k) => k <= s.len() && char_index_at(s@, offset as int) == Some(k as int),
            None => char_index_at(s@, offset as int) is None,
        },
{
    let mut k: usize = 0;
    let mut acc: usize = 0;
    assert(s@.take(0) == Seq::<char>::empty());
    while k < s.len() && acc < offset
        invariant
            k <= s.len(),
            acc <= offset,
            acc == utf8_len(s@.take(k as int)),
        decreases s.len() - k,
    {
        let w = width_of(s[k]);
        assert(s@.take(k + 1).drop_last() == s@.take(k as int));
        if w > offset - acc {
            proof {
                assert forall|j: int| !is_boundary(s@, offset as int, j) by {
                    if 0 <= j < k {
                        lemma_utf8_len_grows(s@, j, k as int);
                    } else if k + 1 < j <= s.len() {
                        lemma_utf8_len_grows(s@, k + 1, j);
                    }
                }
            }
            return None;
        }
        acc += w;
        k += 1;
    }
    if acc == offset {
        proof {
            assert(is_boundary(s@, offset as int, k as int));
            let chosen = choose|j: int| is_boundary(s@, offset as int, j);
            lemma_boundary_unique(s@, offset as int, chosen, k as int);
        }
        Some(k)
    } else {
        proof {
            assert forall|j: int| !is_boundary(s@, offset as int, j) by {
                if 0 <= j < k {
                    lemma_utf8_len_grows(s@, j, k as int);
                }
            }
        }
        None
    }
}

} // verus!
