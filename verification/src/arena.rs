//! The order in which distinct items were first seen, as a sequence
//! without repeats: the model of an interning cache.
use vstd::prelude::*;

verus! {

/// The place of `item` in `cells`, or the length of `cells` where it is
/// not among them: the place it gets when it is added.
pub open spec fn place_of<T>(cells: Seq<T>, item: T) -> int {
    if cells.contains(item) {
        cells.index_of(item)
    } else {
        cells.len() as int
    }
}

/// `cells` after `item` was asked for: unchanged where it was among them,
/// and with `item` at the end where it was not.
pub open spec fn with_item<T>(cells: Seq<T>, item: T) -> Seq<T> {
    if cells.contains(item) {
        cells
    } else {
        cells.push(item)
    }
}

/// `cells` after each of `items` was asked for, in turn.
pub open spec fn with_all<T>(cells: Seq<T>, items: Seq<T>) -> Seq<T>
    decreases items.len(),
{
    if items.len() == 0 {
        cells
    } else {
        with_all(with_item(cells, items[0]), items.drop_first())
    }
}

/// Where nothing occurs twice, an item is at one place only.
pub proof fn lemma_place_unique<T>(cells: Seq<T>, item: T, i: int)
    requires
        cells.no_duplicates(),
        0 <= i < cells.len(),
        cells[i] == item,
    ensures
        place_of(cells, item) == i,
{
    assert(cells.contains(item));
}

/// After an item was asked for it is among the cells, at the place that was
/// named for it; nothing before it has moved, and nothing occurs twice.
pub proof fn lemma_with_item<T>(cells: Seq<T>, item: T)
    requires
        cells.no_duplicates(),
    ensures
        with_item(cells, item).no_duplicates(),
        0 <= place_of(cells, item) < with_item(cells, item).len(),
        with_item(cells, item)[place_of(cells, item)] == item,
        place_of(with_item(cells, item), item) == place_of(cells, item),
        cells.len() <= with_item(cells, item).len() <= cells.len() + 1,
        forall|i: int| 0 <= i < cells.len() ==> with_item(cells, item)[i] == cells[i],
{
    let after = with_item(cells, item);
    if cells.contains(item) {
    } else {
        assert forall|i: int, j: int|
            0 <= i < after.len() && 0 <= j < after.len() && i != j implies after[i] != after[j] by {
            if i < cells.len() {
                assert(cells.contains(after[i]));
            }
            if j < cells.len() {
                assert(cells.contains(after[j]));
            }
        }
        assert(after[cells.len() as int] == item);
    }
    lemma_place_unique(after, item, place_of(cells, item));
}

/// Asking for an item a second time changes nothing.
pub proof fn lemma_with_item_again<T>(cells: Seq<T>, item: T)
    ensures
        with_item(cells, item).contains(item),
        with_item(with_item(cells, item), item) == with_item(cells, item),
{
    if !cells.contains(item) {
        assert(cells.push(item)[cells.len() as int] == item);
    }
}

/// Whatever is asked for, the cells only grow at the end, nothing occurs
/// twice, all that was asked for is among them, and nothing else is new.
pub proof fn lemma_with_all<T>(cells: Seq<T>, items: Seq<T>)
    requires
        cells.no_duplicates(),
    ensures
        with_all(cells, items).no_duplicates(),
        cells.is_prefix_of(with_all(cells, items)),
        forall|i: int|
            0 <= i < items.len() ==> with_all(cells, items).contains(#[trigger] items[i]),
        forall|x: T| #[trigger]
            with_all(cells, items).contains(x) ==> cells.contains(x) || items.contains(x),
    decreases items.len(),
{
    if items.len() > 0 {
        let next = with_item(cells, items[0]);
        let rest = items.drop_first();
        let all = with_all(cells, items);
        lemma_with_item(cells, items[0]);
        lemma_with_item_again(cells, items[0]);
        lemma_with_all(next, rest);
        assert forall|i: int| 0 <= i < items.len() implies all.contains(#[trigger] items[i]) by {
            if i == 0 {
                let k = choose|k: int| 0 <= k < next.len() && next[k] == items[0];
                assert(all[k] == items[0]);
            } else {
                assert(rest[i - 1] == items[i]);
            }
        }
        assert forall|x: T| #[trigger] all.contains(x) implies cells.contains(x) || items.contains(
            x,
        ) by {
            if next.contains(x) {
                let k = choose|k: int| 0 <= k < next.len() && next[k] == x;
                if k < cells.len() {
                    assert(cells[k] == x);
                } else {
                    assert(items[0] == x);
                }
            } else {
                let k = choose|k: int| 0 <= k < rest.len() && rest[k] == x;
                assert(items[k + 1] == x);
            }
        }
    }
}

/// Asking for items that are all among the cells adds no cell.
pub proof fn lemma_with_all_known<T>(cells: Seq<T>, items: Seq<T>)
    requires
        forall|i: int| 0 <= i < items.len() ==> cells.contains(#[trigger] items[i]),
    ensures
        with_all(cells, items) == cells,
    decreases items.len(),
{
    if items.len() > 0 {
        let rest = items.drop_first();
        assert(cells.contains(items[0]));
        assert forall|i: int| 0 <= i < rest.len() implies cells.contains(#[trigger] rest[i]) by {
            assert(rest[i] == items[i + 1]);
        }
        lemma_with_all_known(cells, rest);
    }
}

/// Asking for the same items a second time adds no cell.
pub proof fn lemma_with_all_again<T>(cells: Seq<T>, items: Seq<T>)
    requires
        cells.no_duplicates(),
    ensures
        with_all(with_all(cells, items), items) == with_all(cells, items),
{
    lemma_with_all(cells, items);
    lemma_with_all_known(with_all(cells, items), items);
}

/// Asking for items that are new and all distinct adds one cell for each,
/// in their order.
pub proof fn lemma_with_all_new<T>(cells: Seq<T>, items: Seq<T>)
    requires
        (cells + items).no_duplicates(),
    ensures
        with_all(cells, items) == cells + items,
    decreases items.len(),
{
    if items.len() == 0 {
        assert(cells + items =~= cells);
    } else {
        let rest = items.drop_first();
        if cells.contains(items[0]) {
            let k = choose|k: int| 0 <= k < cells.len() && cells[k] == items[0];
            assert((cells + items)[k] == items[0]);
            assert((cells + items)[cells.len() as int] == items[0]);
        }
        assert(cells.push(items[0]) + rest =~= cells + items);
        lemma_with_all_new(cells.push(items[0]), rest);
    }
}

/// Growth: after `items`, all distinct, were asked of an empty cache, it has
/// one cell for each; asking for all of them again leaves it as it is.
pub proof fn lemma_growth<T>(items: Seq<T>)
    requires
        items.no_duplicates(),
    ensures
        with_all(Seq::empty(), items) == items,
        with_all(Seq::empty(), items).len() == items.len(),
        with_all(with_all(Seq::empty(), items), items) == with_all(Seq::empty(), items),
{
    assert(Seq::<T>::empty() + items =~= items);
    lemma_with_all_new(Seq::empty(), items);
    lemma_with_all_again(Seq::empty(), items);
}

} // verus!
