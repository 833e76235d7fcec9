//! Facts about the first place at which a value occurs in a sequence.

use vstd::prelude::*;

verus! {

/// A place that holds `needle` and has no `needle` before it is the first.
pub proof fn lemma_first_index<A>(items: Seq<A>, needle: A, index: int)
    requires
        0 <= index < items.len(),
        items[index] == needle,
        forall|earlier: int| 0 <= earlier < index ==> items[earlier] != needle,
    ensures
        items.index_of_first(needle) == Some(index),
{
    items.index_of_first_ensures(needle);
    assert(items.contains(needle));
}

/// A sequence that holds `needle` nowhere has no first place for it.
pub proof fn lemma_no_index<A>(items: Seq<A>, needle: A)
    requires
        forall|index: int| 0 <= index < items.len() ==> items[index] != needle,
    ensures
        items.index_of_first(needle) is None,
{
    items.index_of_first_ensures(needle);
}

/// A sequence with one more value at its end holds what it held before,
/// and that value.
pub proof fn lemma_push_contains<A>(items: Seq<A>, last: A, needle: A)
    ensures
        items.push(last).contains(needle) <==> (items.contains(needle) || last == needle),
{
    let longer = items.push(last);
    if longer.contains(needle) {
        let place = choose|place: int| 0 <= place < longer.len() && longer[place] == needle;
        if place < items.len() {
            assert(items[place] == needle);
        }
    }
    if items.contains(needle) {
        let place = choose|place: int| 0 <= place < items.len() && items[place] == needle;
        assert(longer[place] == needle);
    }
    if last == needle {
        assert(longer[items.len() as int] == needle);
    }
}

} // verus!
