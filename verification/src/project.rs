//! The order of the chapters of a project, and its dictionary.

use vstd::prelude::*;
use crate::text::{lowercase, lowercased, same_text};

verus! {

/// Tells whether `id` is among `ids`.
pub fn has_id(ids: &Vec<u32>, id: u32) -> (b: bool)
    ensures
        b == ids@.contains(id),
{
    let mut i: usize = 0;
    while i < ids.len()
        invariant
            i <= ids.len(),
            forall|k: int| 0 <= k < i ==> ids@[k] != id,
        decreases ids.len() - i,
    {
        if ids[i] == id {
            return true;
        }
        i += 1;
    }
    false
}

/// The place of a chapter in the order of a project: the last position at
/// which `order` holds `id`, or `usize::MAX` where it does not hold it.
pub open spec fn position_of(order: Seq<u32>, id: u32) -> int
    decreases order.len(),
{
    if order.len() == 0 {
        usize::MAX as int
    } else if order.last() == id {
        order.len() - 1
    } else {
        position_of(order.drop_last(), id)
    }
}

/// The place of the chapter `id` in `order`; chapters are shown by their
/// places, those that `order` does not hold behind all others.
pub fn chapter_position(order: &Vec<u32>, id: u32) -> (place: usize)
    ensures
        place == position_of(order@, id),
{
    let mut k: usize = order.len();
    proof {
        assert(order@.take(k as int) =~= order@);
    }
    while k > 0
        invariant
            k <= order.len(),
            position_of(order@, id) == position_of(order@.take(k as int), id),
        decreases k,
    {
        if order[k - 1] == id {
            return k - 1;
        }
        proof {
            assert(order@.take(k as int).drop_last() =~= order@.take(k - 1));
        }
        k -= 1;
    }
    usize::MAX
}

/// Whether `words` holds `word`, whatever the case of either.
pub open spec fn holds_word(words: Seq<String>, word: Seq<char>) -> bool {
    exists|i: int| 0 <= i < words.len() && lowercase((#[trigger] words[i])@) == lowercase(word)
}

/// Tells whether the dictionary `words` holds `word`, whatever the case of
/// either.
pub fn has_word(words: &Vec<String>, word: &str) -> (b: bool)
    ensures
        b == holds_word(words@, word@),
{
    let lower = lowercased(word);
    let mut i: usize = 0;
    while i < words.len()
        invariant
            i <= words.len(),
            lower@ == lowercase(word@),
            forall|k: int| 0 <= k < i ==> lowercase((#[trigger] words@[k])@) != lowercase(word@),
        decreases words.len() - i,
    {
        let other = lowercased(words[i].as_str());
        if same_text(other.as_str(), lower.as_str()) {
            return true;
        }
        i += 1;
    }
    false
}

/// The greatest id among the chapters of a project; 0 for a project without
/// chapters. New chapters get the ids that follow it.
pub fn max_chapter_id(order: &Vec<u32>) -> (max: u32)
    ensures
        forall|i: int| 0 <= i < order@.len() ==> order@[i] <= max,
        order@.len() == 0 ==> max == 0,
        order@.len() > 0 ==> order@.contains(max),
{
    let mut max: u32 = 0;
    let mut i: usize = 0;
    while i < order.len()
        invariant
            i <= order.len(),
            forall|k: int| 0 <= k < i ==> order@[k] <= max,
            i == 0 ==> max == 0,
            i > 0 ==> order@.contains(max),
        decreases order.len() - i,
    {
        if order[i] > max || i == 0 {
            max = order[i];
        }
        i += 1;
    }
    max
}

} // verus!
