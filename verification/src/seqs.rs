//! Facts about filtered and mapped sequences that the loops of this crate use.

use vstd::prelude::*;

verus! {

/// The views of a sequence of strings.
pub open spec fn texts(names: Seq<String>) -> Seq<Seq<char>> {
    names.map_values(|name: String| name@)
}

/// Filtering one element more either appends that element or changes nothing.
pub proof fn lemma_filter_take_next<A>(items: Seq<A>, keep: spec_fn(A) -> bool, at: int)
    requires
        0 <= at < items.len(),
    ensures
        items.take(at + 1).filter(keep) == if keep(items[at]) {
            items.take(at).filter(keep).push(items[at])
        } else {
            items.take(at).filter(keep)
        },
{
    reveal(Seq::filter);
    assert(items.take(at + 1).drop_last() =~= items.take(at));
}

/// Taking nothing leaves nothing to filter; taking all is the sequence itself.
pub proof fn lemma_filter_take_ends<A>(items: Seq<A>, keep: spec_fn(A) -> bool)
    ensures
        items.take(0).filter(keep) == Seq::<A>::empty(),
        items.take(items.len() as int) == items,
{
    reveal(Seq::filter);
    assert(items.take(0) =~= Seq::<A>::empty());
    assert(items.take(items.len() as int) =~= items);
}

/// What a filter keeps of the first `count` elements is the start of what it
/// keeps of them all.
pub proof fn lemma_filter_prefix<A>(items: Seq<A>, keep: spec_fn(A) -> bool, count: int)
    requires
        0 <= count <= items.len(),
    ensures
        items.take(count).filter(keep).len() <= items.filter(keep).len(),
        forall|at: int|
            0 <= at < items.take(count).filter(keep).len() ==> #[trigger] items.filter(keep)[at]
                == items.take(count).filter(keep)[at],
{
    assert(items =~= items.take(count) + items.skip(count));
    Seq::filter_distributes_over_add(items.take(count), items.skip(count), keep);
}

/// Mapping after a push is a push after mapping.
pub proof fn lemma_map_values_push<A, B>(items: Seq<A>, item: A, each: spec_fn(A) -> B)
    ensures
        items.push(item).map_values(each) == items.map_values(each).push(each(item)),
{
    assert(items.push(item).map_values(each) =~= items.map_values(each).push(each(item)));
}

/// Pushing a string pushes its view onto the views.
pub proof fn lemma_texts_push(names: Seq<String>, name: String)
    ensures
        texts(names.push(name)) == texts(names).push(name@),
{
    assert(texts(names.push(name)) =~= texts(names).push(name@));
}

/// A text is among the views exactly where some string has it as its view.
pub proof fn lemma_texts_contains(names: Seq<String>, text: Seq<char>)
    ensures
        texts(names).contains(text) <==> exists|at: int|
            0 <= at < names.len() && (#[trigger] names[at])@ == text,
{
    if texts(names).contains(text) {
        let at = choose|at: int| 0 <= at < texts(names).len() && texts(names)[at] == text;
        assert(names[at]@ == text);
    }
    if exists|at: int| 0 <= at < names.len() && (#[trigger] names[at])@ == text {
        let at = choose|at: int| 0 <= at < names.len() && (#[trigger] names[at])@ == text;
        assert(texts(names)[at] == text);
    }
}

} // verus!
