//! Vectors whose items are kept in the order of their names.

use vstd::prelude::*;
use crate::names::{
    ascending, belongs_at, lemma_before_irreflexive, lemma_before_total,
    lemma_before_transitive, lemma_insert_name,
    name_before, rank, Name, Rank,
};

verus! {

/// What is filed under a name.
pub trait Named {
    /// The name an item is filed under.
    spec fn name(&self) -> Name;

    /// The name as text.
    fn label(&self) -> (text: &str)
        ensures
            text@ == self.name(),
    ;
}

/// The names of `items`, in their order.
pub open spec fn names_of<T: Named>(items: Seq<T>) -> Seq<Name> {
    Seq::new(items.len(), |i: int| items[i].name())
}

/// `name` belongs at `place` in `items`: every item before it has a smaller
/// name, every item from there on a greater one.
pub open spec fn fits_at<T: Named>(items: Seq<T>, name: Name, place: int) -> bool {
    &&& 0 <= place <= items.len()
    &&& forall|i: int| 0 <= i < place ==> name_before(#[trigger] items[i].name(), name)
    &&& forall|i: int| place <= i < items.len() ==> name_before(name, #[trigger] items[i].name())
}

/// `name` is the name of the item at `place` in `items`.
pub open spec fn found_at<T: Named>(items: Seq<T>, name: Name, place: int) -> bool {
    &&& 0 <= place < items.len()
    &&& items[place].name() == name
}

/// A name that fits between the items is the name of none of them.
pub proof fn lemma_fits_is_absent<T: Named>(items: Seq<T>, name: Name, place: int)
    requires
        fits_at(items, name, place),
    ensures
        !names_of(items).contains(name),
{
    lemma_before_irreflexive(name);
    if names_of(items).contains(name) {
        let i = choose|i: int| 0 <= i < names_of(items).len() && names_of(items)[i] == name;
    }
}

/// Putting an item where its name fits keeps the order, and adds its name
/// to the names.
pub proof fn lemma_insert_in_order<T: Named>(items: Seq<T>, item: T, place: int)
    requires
        ascending(names_of(items)),
        fits_at(items, item.name(), place),
    ensures
        ascending(names_of(items.insert(place, item))),
        names_of(items.insert(place, item)) == names_of(items).insert(place, item.name()),
        names_of(items.insert(place, item)).to_set() == names_of(items).to_set().insert(item.name()),
{
    let names = names_of(items);
    items.insert_ensures(place, item);
    names.insert_ensures(place, item.name());
    assert(names_of(items.insert(place, item)) =~= names.insert(place, item.name()));
    assert(belongs_at(names, item.name(), place));
    lemma_insert_name(names, item.name(), place);
}

/// Replacing an item by one of the same name changes no name.
pub proof fn lemma_replace_keeps_names<T: Named>(items: Seq<T>, item: T, place: int)
    requires
        found_at(items, item.name(), place),
    ensures
        names_of(items.update(place, item)) == names_of(items),
{
}

/// Looks `name` up in `items`: the place where it stands and `true`, or the
/// place where it would have to be put and `false`.
pub(crate) fn locate<T: Named>(items: &Vec<T>, name: &str) -> (at: (usize, bool))
    requires
        ascending(names_of(items@)),
    ensures
        at.1 ==> found_at(items@, name@, at.0 as int),
        !at.1 ==> fits_at(items@, name@, at.0 as int),
        at.1 == names_of(items@).contains(name@),
{
    let mut low: usize = 0;
    let mut high: usize = items.len();
    while low < high
        invariant
            low <= high <= items.len(),
            ascending(names_of(items@)),
            forall|i: int| 0 <= i < low ==> name_before(#[trigger] items@[i].name(), name@),
            forall|i: int| high <= i < items.len() ==> name_before(name@, #[trigger] items@[i].name()),
        decreases high - low,
    {
        let middle = low + (high - low) / 2;
        match rank(items[middle].label(), name) {
            Rank::Same => {
                assert(names_of(items@)[middle as int] == name@);
                return (middle, true);
            },
            Rank::Before => {
                assert forall|i: int| 0 <= i < middle + 1 implies name_before(
                    #[trigger] items@[i].name(),
                    name@,
                ) by {
                    if i < middle {
                        assert(name_before(names_of(items@)[i], names_of(items@)[middle as int]));
                        lemma_before_transitive(items@[i].name(), items@[middle as int].name(), name@);
                    }
                }
                low = middle + 1;
            },
            Rank::After => {
                proof {
                    lemma_before_total(items@[middle as int].name(), name@);
                }
                assert forall|i: int| middle <= i < items.len() implies name_before(
                    name@,
                    #[trigger] items@[i].name(),
                ) by {
                    if middle < i {
                        assert(name_before(names_of(items@)[middle as int], names_of(items@)[i]));
                        lemma_before_transitive(name@, items@[middle as int].name(), items@[i].name());
                    }
                }
                high = middle;
            },
        }
    }
    proof {
        lemma_fits_is_absent(items@, name@, low as int);
    }
    (low, false)
}

} // verus!
