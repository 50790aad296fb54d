//! The registry as mathematics: a finite map from identifier to destination,
//! and what each operation does to it.

use vstd::prelude::*;

verus! {

/// What a [`Link`] holds, as mathematical values.
pub struct LinkView {
    pub id: Seq<char>,
    pub href: Seq<char>,
}

/// The state of a registry: the destination of every identifier it holds.
pub type Table = Map<Seq<char>, Seq<char>>;

/// The table after `link` is written: its identifier now maps to its
/// destination, whether or not the identifier was there before.
pub open spec fn upsert(table: Table, link: LinkView) -> Table {
    table.insert(link.id, link.href)
}

/// The table after `id` is deleted, and whether a record was there to remove.
pub open spec fn erase(table: Table, id: Seq<char>) -> (Table, bool) {
    (table.remove(id), table.contains_key(id))
}

/// The record stored under `id`, if there is one.
pub open spec fn lookup(table: Table, id: Seq<char>) -> Option<LinkView> {
    if table.contains_key(id) {
        Some(LinkView { id, href: table[id] })
    } else {
        None
    }
}

/// No two records of `links` share an identifier.
pub open spec fn distinct_ids(links: Seq<LinkView>) -> bool {
    forall|i: int, j: int| 0 <= i < j < links.len() ==> links[i].id != links[j].id
}

/// `all` is a listing of `table`: one record for each identifier of the
/// table, each with the destination the table gives it, in any order.
pub open spec fn lists(all: Seq<LinkView>, table: Table) -> bool {
    &&& distinct_ids(all)
    &&& forall|i: int| 0 <= i < all.len() ==> lookup(table, (#[trigger] all[i]).id) == Some(all[i])
    &&& forall|id: Seq<char>| #[trigger]
        table.contains_key(id) ==> exists|i: int| 0 <= i < all.len() && (#[trigger] all[i]).id == id
}

/// The table after each record of `links` is written in turn.
pub open spec fn upsert_all(table: Table, links: Seq<LinkView>) -> Table
    decreases links.len(),
{
    if links.len() == 0 {
        table
    } else {
        upsert(upsert_all(table, links.drop_last()), links.last())
    }
}

/// A listing belongs to one table only: two tables that one sequence of
/// records lists are the same table.
pub proof fn lemma_listing_fixes_table(all: Seq<LinkView>, first: Table, second: Table)
    requires
        lists(all, first),
        lists(all, second),
    ensures
        first == second,
{
    assert forall|id: Seq<char>| first.contains_key(id) <==> second.contains_key(id) by {
        if first.contains_key(id) {
            let i = choose|i: int| 0 <= i < all.len() && (#[trigger] all[i]).id == id;
            assert(lookup(second, all[i].id) == Some(all[i]));
        }
        if second.contains_key(id) {
            let i = choose|i: int| 0 <= i < all.len() && (#[trigger] all[i]).id == id;
            assert(lookup(first, all[i].id) == Some(all[i]));
        }
    }
    assert forall|id: Seq<char>| first.contains_key(id) implies first[id] == second[id] by {
        let i = choose|i: int| 0 <= i < all.len() && (#[trigger] all[i]).id == id;
        assert(lookup(first, all[i].id) == Some(all[i]));
        assert(lookup(second, all[i].id) == Some(all[i]));
    }
    assert(first =~= second);
}

/// A listing still lists the table after a record for a new identifier is
/// written and appended to it.
pub proof fn lemma_lists_appended(all: Seq<LinkView>, table: Table, link: LinkView)
    requires
        lists(all, table),
        !table.contains_key(link.id),
    ensures
        lists(all.push(link), upsert(table, link)),
{
    let longer = all.push(link);
    let written = upsert(table, link);
    assert forall|i: int, j: int| 0 <= i < j < longer.len() implies longer[i].id
        != longer[j].id by {
        assert(lookup(table, all[i].id) == Some(all[i]));
        if j < all.len() {
            assert(all[i].id != all[j].id);
        }
    }
    assert forall|i: int| 0 <= i < longer.len() implies lookup(written, (#[trigger] longer[i]).id)
        == Some(longer[i]) by {
        if i < all.len() {
            assert(lookup(table, all[i].id) == Some(all[i]));
        }
    }
    assert forall|id: Seq<char>| #[trigger] written.contains_key(id) implies exists|i: int|
        0 <= i < longer.len() && (#[trigger] longer[i]).id == id by {
        if id == link.id {
            assert(longer[all.len() as int].id == id);
        } else {
            let i = choose|i: int| 0 <= i < all.len() && (#[trigger] all[i]).id == id;
            assert(longer[i].id == id);
        }
    }
}

/// A listing still lists the table after the record of a held identifier
/// is overwritten, in the table and in its place in the listing.
pub proof fn lemma_lists_replaced(all: Seq<LinkView>, table: Table, at: int, link: LinkView)
    requires
        lists(all, table),
        0 <= at < all.len(),
        all[at].id == link.id,
    ensures
        lists(all.update(at, link), upsert(table, link)),
{
    let changed = all.update(at, link);
    let written = upsert(table, link);
    assert forall|i: int, j: int| 0 <= i < j < changed.len() implies changed[i].id
        != changed[j].id by {
        assert(all[i].id != all[j].id);
    }
    assert forall|i: int| 0 <= i < changed.len() implies lookup(
        written,
        (#[trigger] changed[i]).id,
    ) == Some(changed[i]) by {
        assert(lookup(table, all[i].id) == Some(all[i]));
        if i < at {
            assert(all[i].id != all[at].id);
        } else if at < i {
            assert(all[at].id != all[i].id);
        }
    }
    assert forall|id: Seq<char>| #[trigger] written.contains_key(id) implies exists|i: int|
        0 <= i < changed.len() && (#[trigger] changed[i]).id == id by {
        if id == link.id {
            assert(changed[at].id == id);
        } else {
            let i = choose|i: int| 0 <= i < all.len() && (#[trigger] all[i]).id == id;
            assert(changed[i].id == id);
        }
    }
}

/// A listing still lists the table after one of its records is deleted from
/// both.
pub proof fn lemma_lists_removed(all: Seq<LinkView>, table: Table, at: int)
    requires
        lists(all, table),
        0 <= at < all.len(),
    ensures
        lists(all.remove(at), erase(table, all[at].id).0),
{
    let shorter = all.remove(at);
    let left = erase(table, all[at].id).0;
    assert forall|i: int| 0 <= i < shorter.len() implies #[trigger] shorter[i] == all[if i < at {
        i
    } else {
        i + 1
    }] by {}
    assert forall|i: int, j: int| 0 <= i < j < shorter.len() implies shorter[i].id
        != shorter[j].id by {
        let from_i = if i < at { i } else { i + 1 };
        let from_j = if j < at { j } else { j + 1 };
        assert(all[from_i].id != all[from_j].id);
    }
    assert forall|i: int| 0 <= i < shorter.len() implies lookup(left, (#[trigger] shorter[i]).id)
        == Some(shorter[i]) by {
        let from = if i < at { i } else { i + 1 };
        assert(lookup(table, all[from].id) == Some(all[from]));
        if from < at {
            assert(all[from].id != all[at].id);
        } else {
            assert(all[at].id != all[from].id);
        }
    }
    assert forall|id: Seq<char>| #[trigger] left.contains_key(id) implies exists|i: int|
        0 <= i < shorter.len() && (#[trigger] shorter[i]).id == id by {
        let from = choose|i: int| 0 <= i < all.len() && (#[trigger] all[i]).id == id;
        let i = if from < at { from } else { from - 1 };
        assert(shorter[i].id == id);
    }
}

/// Records with distinct identifiers, written one after the other into an
/// empty table, are a listing of the table they leave.
pub proof fn lemma_written_records_list(links: Seq<LinkView>)
    requires
        distinct_ids(links),
    ensures
        lists(links, upsert_all(Map::empty(), links)),
    decreases links.len(),
{
    if links.len() > 0 {
        let earlier = links.drop_last();
        let before = upsert_all(Map::empty(), earlier);
        let last = links.last();
        lemma_written_records_list(earlier);
        if before.contains_key(last.id) {
            let i = choose|i: int| 0 <= i < earlier.len() && (#[trigger] earlier[i]).id == last.id;
            assert(links[i].id == links[links.len() - 1].id);
        }
        lemma_lists_appended(earlier, before, last);
        assert(earlier.push(last) =~= links);
    }
}

/// A listing has as many records as its table has identifiers.
pub proof fn lemma_listing_len(all: Seq<LinkView>, table: Table)
    requires
        lists(all, table),
    ensures
        table.dom().finite(),
        table.dom().len() == all.len(),
{
    let ids = all.map_values(|link: LinkView| link.id);
    assert(ids.no_duplicates()) by {
        assert forall|i: int, j: int| 0 <= i < ids.len() && 0 <= j < ids.len() && i != j implies ids[i]
            != ids[j] by {
            if i < j {
                assert(all[i].id != all[j].id);
            } else {
                assert(all[j].id != all[i].id);
            }
        }
    }
    assert(ids.to_set() =~= table.dom()) by {
        assert forall|id: Seq<char>| ids.to_set().contains(id) <==> table.dom().contains(id) by {
            if ids.contains(id) {
                let i = choose|i: int| 0 <= i < ids.len() && ids[i] == id;
                assert(lookup(table, all[i].id) == Some(all[i]));
            }
            if table.contains_key(id) {
                let i = choose|i: int| 0 <= i < all.len() && (#[trigger] all[i]).id == id;
                assert(ids[i] == id);
            }
        }
    }
    ids.unique_seq_to_set();
    vstd::seq_lib::seq_to_set_is_finite(ids);
}

} // verus!
