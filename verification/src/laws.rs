//! What holds of the registry whatever it held before: the laws that relate
//! writing, deleting, looking up and listing.
//!
//! Each law is stated over the functions of [`crate::model`], which are the
//! ones the contracts of [`crate::links`] are written in, so each holds of
//! every sequence of calls on a [`crate::links::Registry`].

use crate::endpoint::{
    answers, created, no_content, not_found, redirection, shown, table_after, RequestView,
};
use crate::model::{
    distinct_ids, erase, lemma_listing_len, lemma_lists_appended, lemma_written_records_list, lists,
    lookup, upsert, upsert_all, LinkView, Table,
};
use vstd::prelude::*;

verus! {

/// The last write wins. After an identifier is written twice, a lookup gives
/// the second destination, the table is the one that the second write alone
/// would have left, and every listing holds exactly one record for the
/// identifier: the second.
pub proof fn law_overwrite(
    table: Table,
    id: Seq<char>,
    first: Seq<char>,
    second: Seq<char>,
    all: Seq<LinkView>,
)
    requires
        lists(
            all,
            upsert(upsert(table, LinkView { id, href: first }), LinkView { id, href: second }),
        ),
    ensures
        ({
            let twice = upsert(
                upsert(table, LinkView { id, href: first }),
                LinkView { id, href: second },
            );
            &&& lookup(twice, id) == Some(LinkView { id, href: second })
            &&& twice == upsert(table, LinkView { id, href: second })
            &&& exists|at: int|
                {
                    &&& 0 <= at < all.len()
                    &&& #[trigger] all[at] == (LinkView { id, href: second })
                    &&& forall|i: int| 0 <= i < all.len() && (#[trigger] all[i]).id == id ==> i == at
                }
        }),
{
    let twice = upsert(upsert(table, LinkView { id, href: first }), LinkView { id, href: second });
    assert(twice =~= upsert(table, LinkView { id, href: second }));
    law_one_record_per_id(twice, all, id);
}

/// A listing holds exactly one record for each identifier of its table, and
/// that record carries the destination that a lookup gives.
pub proof fn law_one_record_per_id(table: Table, all: Seq<LinkView>, id: Seq<char>)
    requires
        lists(all, table),
        table.contains_key(id),
    ensures
        exists|at: int|
            {
                &&& 0 <= at < all.len()
                &&& Some(#[trigger] all[at]) == lookup(table, id)
                &&& forall|i: int| 0 <= i < all.len() && (#[trigger] all[i]).id == id ==> i == at
            },
{
    let at = choose|at: int| 0 <= at < all.len() && (#[trigger] all[at]).id == id;
    assert(lookup(table, all[at].id) == Some(all[at]));
    assert forall|i: int| 0 <= i < all.len() && (#[trigger] all[i]).id == id implies i == at by {
        if i < at {
            assert(all[i].id != all[at].id);
        } else if at < i {
            assert(all[at].id != all[i].id);
        }
    }
}

/// Deleting an identifier that was just written removes a record, and a
/// lookup then finds nothing.
pub proof fn law_delete_then_get(table: Table, link: LinkView)
    ensures
        erase(upsert(table, link), link.id).1,
        lookup(erase(upsert(table, link), link.id).0, link.id) == None::<LinkView>,
{
}

/// Deleting an identifier that the table does not hold removes nothing and
/// leaves the table as it was.
pub proof fn law_delete_absent(table: Table, id: Seq<char>)
    requires
        lookup(table, id) == None::<LinkView>,
    ensures
        erase(table, id) == (table, false),
{
    assert(table.remove(id) =~= table);
}

/// What was written is what a lookup gives back: the same identifier and the
/// same destination.
pub proof fn law_round_trip(table: Table, link: LinkView)
    ensures
        lookup(upsert(table, link), link.id) == Some(link),
{
}

/// Two listings of one table hold the same records, each once: they differ
/// in order at most.
pub proof fn law_listings_agree(first: Seq<LinkView>, second: Seq<LinkView>, table: Table)
    requires
        lists(first, table),
        lists(second, table),
    ensures
        first.len() == second.len(),
        first.to_multiset() == second.to_multiset(),
{
    lemma_listing_len(first, table);
    lemma_listing_len(second, table);
    lemma_listed_once(first, table);
    lemma_listed_once(second, table);
    assert forall|link: LinkView| first.to_multiset().count(link) == second.to_multiset().count(
        link,
    ) by {
        assert(first.contains(link) <==> second.contains(link));
    }
    assert(first.to_multiset() =~= second.to_multiset());
}

/// A listing holds a record once if a lookup in its table gives that record,
/// and not at all otherwise.
proof fn lemma_listed_once(all: Seq<LinkView>, table: Table)
    requires
        lists(all, table),
    ensures
        forall|link: LinkView| #[trigger]
            all.contains(link) <==> lookup(table, link.id) == Some(link),
        forall|link: LinkView| #[trigger]
            all.to_multiset().count(link) == (if all.contains(link) {
                1nat
            } else {
                0nat
            }),
{
    assert forall|link: LinkView| #[trigger]
        all.contains(link) <==> lookup(table, link.id) == Some(link) by {
        if all.contains(link) {
            let i = choose|i: int| 0 <= i < all.len() && all[i] == link;
            assert(lookup(table, all[i].id) == Some(all[i]));
        }
        if lookup(table, link.id) == Some(link) {
            let i = choose|i: int| 0 <= i < all.len() && (#[trigger] all[i]).id == link.id;
            assert(lookup(table, all[i].id) == Some(all[i]));
            assert(all[i] == link);
        }
    }
    assert(all.no_duplicates()) by {
        assert forall|i: int, j: int| 0 <= i < all.len() && 0 <= j < all.len() && i != j implies all[i]
            != all[j] by {
            if i < j {
                assert(all[i].id != all[j].id);
            } else {
                assert(all[j].id != all[i].id);
            }
        }
    }
    all.lemma_multiset_has_no_duplicates();
    all.to_multiset_ensures();
}

/// A listing is complete. After records with distinct identifiers are
/// written into an empty table, every listing holds as many records as were
/// written, and holds exactly the written records, in any order.
pub proof fn law_listing_complete(links: Seq<LinkView>, all: Seq<LinkView>)
    requires
        distinct_ids(links),
        lists(all, upsert_all(Map::empty(), links)),
    ensures
        all.len() == links.len(),
        all.to_multiset() == links.to_multiset(),
{
    lemma_written_records_list(links);
    law_listings_agree(all, links, upsert_all(Map::empty(), links));
}

/// Writing new identifiers adds their records and nothing else. After
/// records with distinct identifiers, none of them held before, are written
/// into a table, every listing holds the records that were listed before and
/// the written ones, each once.
pub proof fn law_listing_grows(
    table: Table,
    held: Seq<LinkView>,
    links: Seq<LinkView>,
    all: Seq<LinkView>,
)
    requires
        lists(held, table),
        distinct_ids(links),
        forall|i: int| 0 <= i < links.len() ==> !table.contains_key((#[trigger] links[i]).id),
        lists(all, upsert_all(table, links)),
    ensures
        all.len() == held.len() + links.len(),
        all.to_multiset() == held.to_multiset().add(links.to_multiset()),
{
    lemma_lists_all_appended(table, held, links);
    law_listings_agree(all, held + links, upsert_all(table, links));
    vstd::seq_lib::lemma_multiset_commutative(held, links);
}

/// A listing, with new records of distinct identifiers appended to it, lists
/// the table that writing those records leaves.
proof fn lemma_lists_all_appended(table: Table, held: Seq<LinkView>, links: Seq<LinkView>)
    requires
        lists(held, table),
        distinct_ids(links),
        forall|i: int| 0 <= i < links.len() ==> !table.contains_key((#[trigger] links[i]).id),
    ensures
        lists(held + links, upsert_all(table, links)),
    decreases links.len(),
{
    if links.len() == 0 {
        assert(held + links =~= held);
    } else {
        let earlier = links.drop_last();
        let before = upsert_all(table, earlier);
        let last = links.last();
        assert forall|i: int| 0 <= i < earlier.len() implies !table.contains_key(
            (#[trigger] earlier[i]).id,
        ) by {
            assert(!table.contains_key(links[i].id));
        }
        lemma_lists_all_appended(table, held, earlier);
        if before.contains_key(last.id) {
            let listed = held + earlier;
            let i = choose|i: int| 0 <= i < listed.len() && (#[trigger] listed[i]).id == last.id;
            if i < held.len() {
                assert(lookup(table, held[i].id) == Some(held[i]));
                assert(!table.contains_key(links[links.len() - 1].id));
            } else {
                assert(links[i - held.len()].id == links[links.len() - 1].id);
            }
        }
        lemma_lists_appended(held + earlier, before, last);
        assert((held + earlier).push(last) =~= held + links);
    }
}

/// The life of a link as the routes show it. A write with a well-formed body
/// answers with the record; from then on resolving the identifier redirects
/// to the written destination and inspecting it shows the record; a delete
/// answers with no content, and from then on both answer that nothing was
/// found.
pub proof fn law_link_lifecycle(table: Table, id: Seq<char>, href: Seq<char>)
    ensures
        ({
            let link = LinkView { id, href };
            let written = table_after(table, RequestView::PutLink(id, Ok(href)));
            let deleted = table_after(written, RequestView::DeleteLink(id));
            &&& answers(table, RequestView::PutLink(id, Ok(href)), created(link))
            &&& answers(written, RequestView::Redirect(id), redirection(href))
            &&& answers(written, RequestView::GetLink(id), shown(link))
            &&& answers(written, RequestView::DeleteLink(id), no_content())
            &&& answers(deleted, RequestView::Redirect(id), not_found())
            &&& answers(deleted, RequestView::GetLink(id), not_found())
        }),
{
}

} // verus!
