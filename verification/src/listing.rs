//! The listing of a table: which rows a search selects, and in what order
//! they are shown.
//!
//! A listing shows the most recently changed row first; among rows changed
//! in the same second, the one with the greater id comes first.
use crate::records::{
    list_item, list_item_of, opt_str, EntryListItem, EntryRow, ListItemView, RowView,
};
use crate::table::{ids_ascending, index_of, lemma_map_at, EntryTable};
use crate::text::{contains, contains_text, to_chars, trim, trimmed};
use vstd::prelude::*;

verus! {

/// The values of a vector of list items, in order.
pub open spec fn item_views(items: Seq<EntryListItem>) -> Seq<ListItemView> {
    items.map_values(|item: EntryListItem| item@)
}

/// `a` is shown before `b`: it was changed later, or in the same second and
/// has the greater id.
pub open spec fn lists_before(a: ListItemView, b: ListItemView) -> bool {
    a.updated_at > b.updated_at || (a.updated_at == b.updated_at && a.id > b.id)
}

/// Each item of `items` is shown before all that follow it.
pub open spec fn in_order(items: Seq<ListItemView>) -> bool {
    forall|i: int, j: int| 0 <= i < j < items.len() ==> lists_before(items[i], items[j])
}

/// Whether a search selects `row`. No search selects every row. A search
/// term selects the rows whose site or user name holds the trimmed term
/// somewhere. The match is exact character by character: it tells upper
/// case from lower case, and no character of the term stands for another.
pub open spec fn row_matches(row: RowView, term: Option<Seq<char>>) -> bool {
    match term {
        None => true,
        Some(t) => contains_text(row.site, trimmed(t)) || contains_text(row.username, trimmed(t)),
    }
}

/// Some item of `items` has this id.
pub open spec fn lists_id(items: Seq<ListItemView>, id: i64) -> bool {
    exists|k: int| 0 <= k < items.len() && #[trigger] items[k].id == id
}

/// The item at place `k` shows a row of `entries` that the search selects.
pub open spec fn shows_selected(
    entries: Map<i64, RowView>,
    term: Option<Seq<char>>,
    items: Seq<ListItemView>,
    k: int,
) -> bool {
    let id = items[k].id;
    &&& entries.contains_key(id)
    &&& row_matches(entries[id], term)
    &&& items[k] == list_item_of(entries[id])
}

/// `items` is the listing of `entries` for the search `term`: it shows
/// exactly the rows that the search selects, each once, in order.
pub open spec fn is_listing(
    entries: Map<i64, RowView>,
    term: Option<Seq<char>>,
    items: Seq<ListItemView>,
) -> bool {
    &&& in_order(items)
    &&& forall|k: int| 0 <= k < items.len() ==> #[trigger] shows_selected(entries, term, items, k)
    &&& forall|id: i64| #[trigger]
        entries.contains_key(id) && row_matches(entries[id], term) ==> lists_id(items, id)
}

/// Whether `a` is shown before `b`.
pub fn comes_before(a: &EntryListItem, b: &EntryListItem) -> (r: bool)
    ensures
        r == lists_before(a@, b@),
{
    a.updated_at > b.updated_at || (a.updated_at == b.updated_at && a.id > b.id)
}

/// Whether a row holds the trimmed search term in its site or its user name.
pub fn row_selected(row: &EntryRow, needle: &Option<Vec<char>>) -> (r: bool)
    ensures
        r == match needle {
            Some(t) => contains_text(row@.site, t@) || contains_text(row@.username, t@),
            None => true,
        },
{
    match needle {
        Some(t) => {
            let site = to_chars(row.site.as_str());
            if contains(&site, t) {
                true
            } else {
                let username = to_chars(row.username.as_str());
                contains(&username, t)
            }
        },
        None => true,
    }
}

/// The listing of `table` for an optional search term.
pub fn select(table: &EntryTable, search: Option<&str>) -> (items: Vec<EntryListItem>)
    ensures
        is_listing(table@, opt_str(search), item_views(items@)),
{
    proof {
        use_type_invariant(table);
        table.lemma_valid();
    }
    let needle: Option<Vec<char>> = match search {
        Some(term) => {
            let chars = to_chars(term);
            Some(trim(&chars))
        },
        None => None,
    };
    let ghost term = opt_str(search);
    let ghost rows = table.rows();
    let n: usize = table.len();
    let mut items: Vec<EntryListItem> = Vec::new();
    // The place in `rows` that each item was made from.
    let ghost mut made_from: Seq<int> = Seq::empty();
    let mut i: usize = 0;
    while i < n
        invariant
            i <= n,
            n == rows.len(),
            rows == table.rows(),
            ids_ascending(rows),
            term == opt_str(search),
            match needle {
                Some(t) => term == Some(search->Some_0@) && t@ == trimmed(search->Some_0@),
                None => term is None,
            },
            in_order(item_views(items@)),
            made_from.len() == items.len(),
            forall|k: int|
                0 <= k < items.len() ==> {
                    &&& 0 <= #[trigger] made_from[k] < i
                    &&& row_matches(rows[made_from[k]], term)
                    &&& items@[k]@ == list_item_of(rows[made_from[k]])
                },
            forall|j: int|
                0 <= j < i && row_matches(#[trigger] rows[j], term) ==> made_from.contains(j),
        decreases n - i,
    {
        let row = table.row_at(i);
        if row_selected(row, &needle) {
            let item = list_item(row);
            let m: usize = items.len();
            let mut p: usize = 0;
            while p < m
                invariant
                    p <= m,
                    m == items.len(),
                    forall|k: int| 0 <= k < p ==> lists_before(#[trigger] items@[k]@, item@),
                ensures
                    p <= m,
                    forall|k: int| 0 <= k < p ==> lists_before(#[trigger] items@[k]@, item@),
                    p < m ==> !lists_before(items@[p as int]@, item@),
                decreases m - p,
            {
                if !comes_before(&items[p], &item) {
                    break ;
                }
                p = p + 1;
            }
            let ghost before = items@;
            let ghost before_from = made_from;
            items.insert(p, item);
            proof {
                made_from = before_from.insert(p as int, i as int);
                let views = item_views(items@);
                // Every item listed so far stems from a row with a smaller
                // id, so the new item ties with none of them.
                assert forall|k: int| p <= k < before.len() implies lists_before(
                    item@,
                    #[trigger] before[k]@,
                ) by {
                    let j = before_from[k];
                    assert(rows[j].id < rows[i as int].id);
                    let jp = before_from[p as int];
                    assert(rows[jp].id < rows[i as int].id);
                    assert(!lists_before(before[p as int]@, item@));
                    if k > p {
                        assert(lists_before(
                            item_views(before)[p as int],
                            item_views(before)[k],
                        ));
                    }
                }
                assert forall|a: int, b: int| 0 <= a < b < views.len() implies lists_before(
                    views[a],
                    views[b],
                ) by {
                    let a0 = if a < p { a } else { a - 1 };
                    let b0 = if b < p { b } else { b - 1 };
                    if a == p {
                        assert(views[b] == before[b0]@);
                    } else if b == p {
                        assert(views[a] == before[a0]@);
                    } else {
                        assert(views[a] == item_views(before)[a0]);
                        assert(views[b] == item_views(before)[b0]);
                    }
                }
                assert forall|k: int| 0 <= k < items.len() implies {
                    &&& 0 <= #[trigger] made_from[k] < i + 1
                    &&& row_matches(rows[made_from[k]], term)
                    &&& items@[k]@ == list_item_of(rows[made_from[k]])
                } by {
                    if k < p {
                        assert(made_from[k] == before_from[k]);
                    } else if k > p {
                        assert(made_from[k] == before_from[k - 1]);
                        assert(items@[k] == before[k - 1]);
                    }
                }
                assert forall|j: int|
                    0 <= j < i + 1 && row_matches(
                        #[trigger] rows[j],
                        term,
                    ) implies made_from.contains(j) by {
                    if j == i {
                        assert(made_from[p as int] == j);
                    } else {
                        assert(before_from.contains(j));
                        let k = choose|k: int| 0 <= k < before_from.len() && before_from[k] == j;
                        let k1 = if k < p { k } else { k + 1 };
                        assert(made_from[k1] == j);
                    }
                }
            }
        }
        i = i + 1;
    }
    proof {
        let views = item_views(items@);
        let entries = table@;
        assert forall|k: int| 0 <= k < views.len() implies #[trigger] shows_selected(
            entries,
            term,
            views,
            k,
        ) by {
            lemma_map_at(rows, made_from[k]);
        }
        assert forall|id: i64| #[trigger]
            entries.contains_key(id) && row_matches(entries[id], term) implies lists_id(
            views,
            id,
        ) by {
            let j = index_of(rows, id);
            lemma_map_at(rows, j);
            assert(made_from.contains(j));
            let k = choose|k: int| 0 <= k < made_from.len() && made_from[k] == j;
            assert(views[k].id == id);
        }
    }
    items
}

} // verus!
