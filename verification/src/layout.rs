//! How the lists of a list column lie in its child vector: one after another, each found again by
//! the offset and length of its entry.
use vstd::prelude::*;

verus! {

/// Where one list of a list column lies in the column's child vector.
#[derive(Debug, Clone, Copy, PartialEq, Eq, Structural)]
pub struct ListEntry {
    /// The index of the list's first element in the child vector.
    pub offset: usize,
    /// The number of elements of the list.
    pub length: usize,
}

impl View for ListEntry {
    type V = (int, int);

    open spec fn view(&self) -> (int, int) {
        (self.offset as int, self.length as int)
    }
}

/// The number of elements of all lists together.
pub open spec fn total_length<T>(lists: Seq<Seq<T>>) -> nat {
    lists.flatten().len()
}

/// The entries, as offset and length, of lists that lie one after another in the child vector.
pub open spec fn packed_entries<T>(lists: Seq<Seq<T>>) -> Seq<(int, int)> {
    Seq::new(
        lists.len(),
        |i: int| (total_length(lists.take(i)) as int, lists[i].len() as int),
    )
}

/// The elements of the child vector that an entry covers.
pub open spec fn entry_slice<T>(child: Seq<T>, entry: (int, int)) -> Seq<T> {
    child.subrange(entry.0, entry.0 + entry.1)
}

/// Reading an entry of packed lists gives back its list, elements in order and duplicates kept.
pub proof fn law_packed_entry_reads_back<T>(lists: Seq<Seq<T>>, i: int)
    requires
        0 <= i < lists.len(),
    ensures
        0 <= packed_entries(lists)[i].0,
        packed_entries(lists)[i].0 + packed_entries(lists)[i].1 <= total_length(lists),
        entry_slice(lists.flatten(), packed_entries(lists)[i]) == lists[i],
{
    lemma_flatten_split(lists, i);
    lemma_flatten_split(lists, i + 1);
    lemma_flatten_take(lists, i);
    let head = lists.take(i).flatten();
    let tail = lists.skip(i + 1).flatten();
    assert(lists.flatten() =~= head + lists[i] + tail);
    assert(entry_slice(lists.flatten(), packed_entries(lists)[i]) =~= lists[i]);
}

/// Packed entries leave no gap and do not overlap: the first starts at zero, each other one where
/// the one before it ends, and the last ends where the child vector does.
pub proof fn law_packed_entries_partition_the_child<T>(lists: Seq<Seq<T>>, i: int)
    requires
        0 <= i < lists.len(),
    ensures
        packed_entries(lists)[0].0 == 0,
        packed_entries(lists)[i].0 + packed_entries(lists)[i].1 == if i + 1 < lists.len() {
            packed_entries(lists)[i + 1].0
        } else {
            total_length(lists) as int
        },
{
    lemma_flatten_take(lists, i);
    assert(lists.take(0) =~= Seq::<Seq<T>>::empty());
    assert(lists.take(lists.len() as int) =~= lists);
}

/// One more list adds its elements at the end.
pub proof fn lemma_flatten_take<T>(lists: Seq<Seq<T>>, i: int)
    requires
        0 <= i < lists.len(),
    ensures
        lists.take(i + 1).flatten() == lists.take(i).flatten() + lists[i],
{
    assert(lists.take(i + 1) =~= lists.take(i).push(lists[i]));
    lists.take(i).lemma_flatten_push(lists[i]);
}

/// The elements of the first lists are a prefix of all elements.
pub proof fn lemma_flatten_split<T>(lists: Seq<Seq<T>>, i: int)
    requires
        0 <= i <= lists.len(),
    ensures
        lists.flatten() == lists.take(i).flatten() + lists.skip(i).flatten(),
        total_length(lists.take(i)) <= total_length(lists),
{
    assert(lists =~= lists.take(i) + lists.skip(i));
    vstd::seq_lib::lemma_flatten_concat(lists.take(i), lists.skip(i));
}

/// The lengths of lists add up.
pub proof fn law_lengths_add_up<T>(lists: Seq<Seq<T>>)
    ensures
        lists.len() == 0 ==> total_length(lists) == 0,
        lists.len() > 0 ==> total_length(lists) == total_length(lists.drop_last())
            + lists.last().len(),
{
    if lists.len() > 0 {
        lemma_flatten_take(lists, lists.len() - 1);
        assert(lists.take(lists.len() as int) =~= lists);
        assert(lists.take(lists.len() - 1) =~= lists.drop_last());
    }
}

} // verus!
