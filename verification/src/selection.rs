//! Picking out of a list, in order.
use vstd::prelude::*;

verus! {

/// Whether `places` are the places below `count` that are wanted: all of them
/// and no others, each once and in increasing order.
pub open spec fn selects(places: Seq<int>, count: nat, wanted: spec_fn(int) -> bool) -> bool {
    &&& forall|i: int, j: int| 0 <= i < j < places.len() ==> places[i] < places[j]
    &&& forall|i: int|
        0 <= i < places.len() ==> 0 <= #[trigger] places[i] < count && wanted(places[i])
    &&& forall|p: int| 0 <= p < count && #[trigger] wanted(p) ==> places.contains(p)
}

/// The wanted places below `count`, in increasing order.
pub open spec fn places(count: nat, wanted: spec_fn(int) -> bool) -> Seq<int>
    decreases count,
{
    if count == 0 {
        Seq::empty()
    } else {
        let before = places((count - 1) as nat, wanted);
        if wanted(count - 1) {
            before.push(count - 1)
        } else {
            before
        }
    }
}

/// There is a selection for every wish.
pub proof fn law_places_select(count: nat, wanted: spec_fn(int) -> bool)
    ensures
        selects(places(count, wanted), count, wanted),
    decreases count,
{
    if count > 0 {
        let before = places((count - 1) as nat, wanted);
        let after = places(count, wanted);
        law_places_select((count - 1) as nat, wanted);
        assert forall|p: int| 0 <= p < count && #[trigger] wanted(p) implies after.contains(p) by {
            if p < count - 1 {
                assert(before.contains(p));
                let i = before.index_of(p);
                assert(after[i] == p);
            } else {
                assert(after[before.len() as int] == p);
            }
        }
    }
}

/// There is only one selection for a wish.
pub proof fn law_selection_unique(
    a: Seq<int>,
    b: Seq<int>,
    count: nat,
    wanted: spec_fn(int) -> bool,
)
    requires
        selects(a, count, wanted),
        selects(b, count, wanted),
    ensures
        a == b,
    decreases count,
{
    if count == 0 {
        assert(a.len() == 0) by {
            if a.len() > 0 {
                assert(a[0] < 0);
            }
        }
        assert(b.len() == 0) by {
            if b.len() > 0 {
                assert(b[0] < 0);
            }
        }
        assert(a =~= b);
    } else {
        let last = count - 1;
        if wanted(last) {
            lemma_last_place(a, count, wanted);
            lemma_last_place(b, count, wanted);
            law_selection_unique(a.drop_last(), b.drop_last(), last as nat, wanted);
            assert(a =~= a.drop_last().push(last));
            assert(b =~= b.drop_last().push(last));
        } else {
            law_selection_unique(a, b, last as nat, wanted);
        }
    }
}

/// The last wanted place comes last.
proof fn lemma_last_place(places: Seq<int>, count: nat, wanted: spec_fn(int) -> bool)
    requires
        count > 0,
        wanted(count - 1),
        selects(places, count, wanted),
    ensures
        places.len() > 0,
        places.last() == count - 1,
        selects(places.drop_last(), (count - 1) as nat, wanted),
{
    assert(places.contains(count - 1));
    let at = places.index_of(count - 1);
    assert(at == places.len() - 1) by {
        if at < places.len() - 1 {
            assert(places[at] < places[places.len() - 1]);
        }
    }
    let front = places.drop_last();
    assert forall|i: int| 0 <= i < front.len() implies 0 <= #[trigger] front[i] < count - 1
        && wanted(front[i]) by {
        assert(front[i] == places[i]);
        assert(places[i] < places[at]);
    }
    assert forall|p: int| 0 <= p < count - 1 && #[trigger] wanted(p) implies front.contains(p) by {
        assert(places.contains(p));
        let i = places.index_of(p);
        assert(front[i] == p);
    }
}

} // verus!
