//! The link record and the registry that owns the records.
//!
//! [`Registry`] is a link table held in memory. Each of its operations is
//! proved to do to the table what [`crate::model`] says of it.

use crate::model::{
    distinct_ids, erase, lemma_listing_fixes_table, lemma_listing_len, lemma_lists_appended,
    lemma_lists_removed, lemma_lists_replaced, lemma_written_records_list, lists, lookup, upsert,
    upsert_all, LinkView, Table,
};
use vstd::prelude::*;

verus! {

/// A short identifier and the destination it stands for.
#[derive(Debug)]
pub struct Link {
    id: String,
    pub href: String,
}

impl View for Link {
    type V = LinkView;

    closed spec fn view(&self) -> LinkView {
        LinkView { id: self.id@, href: self.href@ }
    }
}

impl Link {
    /// The link that maps `id` to `href`.
    pub fn new(id: String, href: String) -> (link: Link)
        ensures
            link@ == (LinkView { id: id@, href: href@ }),
    {
        Link { id, href }
    }

    /// The identifier of this link.
    pub fn id(&self) -> (id: &str)
        ensures
            id@ == self@.id,
    {
        self.id.as_str()
    }

    /// Takes the link apart into its identifier and its destination.
    pub fn into_parts(self) -> (parts: (String, String))
        ensures
            parts.0@ == self@.id,
            parts.1@ == self@.href,
    {
        (self.id, self.href)
    }
}

impl Clone for Link {
    fn clone(&self) -> (copy: Link)
        ensures
            copy@ == self@,
    {
        Link { id: self.id.clone(), href: self.href.clone() }
    }
}

/// The failure of the store that a registry is kept in, with the store's own
/// words for it. A registry hands it on as it is and never turns it into an
/// absent record. The in-memory [`Registry`] has no store to fail and reports
/// none.
#[derive(Debug)]
pub struct StorageError {
    pub message: String,
}

impl View for StorageError {
    type V = Seq<char>;

    open spec fn view(&self) -> Seq<char> {
        self.message@
    }
}

impl StorageError {
    /// A failure that the store described as `message`.
    pub fn new(message: String) -> (error: StorageError)
        ensures
            error@ == message@,
    {
        StorageError { message }
    }
}

/// The records that `links` holds, each as mathematical values.
pub open spec fn views(links: Seq<Link>) -> Seq<LinkView> {
    links.map_values(|link: Link| link@)
}

/// What a lookup handed back, as mathematical values.
pub open spec fn record(found: Option<Link>) -> Option<LinkView> {
    match found {
        Some(link) => Some(link@),
        None => None,
    }
}

/// An in-memory link table: the registry with its store held in the process.
#[derive(Debug)]
pub struct Registry {
    links: Vec<Link>,
}

impl View for Registry {
    type V = Table;

    closed spec fn view(&self) -> Table {
        upsert_all(Map::empty(), self.records())
    }
}

impl Registry {
    /// The stored records, in the order in which their identifiers arrived.
    pub closed spec fn records(&self) -> Seq<LinkView> {
        views(self.links@)
    }

    #[verifier::type_invariant]
    spec fn one_record_per_id(&self) -> bool {
        distinct_ids(self.records())
    }

    /// A registry that holds no link.
    pub fn new() -> (registry: Registry)
        ensures
            registry@ == Map::<Seq<char>, Seq<char>>::empty(),
    {
        Registry { links: Vec::new() }
    }

    /// Where the record of `id` stands among the stored records.
    fn position(&self, id: &String) -> (found: Option<usize>)
        ensures
            match found {
                Some(at) => at < self.records().len() && self.records()[at as int].id == id@,
                None => !self@.contains_key(id@),
            },
    {
        proof {
            use_type_invariant(self);
            lemma_written_records_list(self.records());
        }
        let mut at: usize = 0;
        while at < self.links.len()
            invariant
                at <= self.links.len(),
                forall|i: int| 0 <= i < at ==> (#[trigger] self.records()[i]).id != id@,
            decreases self.links.len() - at,
        {
            if self.links[at].id == *id {
                return Some(at);
            }
            at += 1;
        }
        None
    }
}

/// Creates the record of `link`'s identifier, or replaces its destination
/// where the identifier is already held, and returns the record as stored.
pub fn insert(registry: &mut Registry, link: Link) -> (stored: Link)
    ensures
        final(registry)@ == upsert(old(registry)@, link@),
        stored@ == link@,
{
    let stored = link.clone();
    let ghost before = registry.records();
    let ghost table = upsert(registry@, link@);
    proof {
        use_type_invariant(&*registry);
        lemma_written_records_list(before);
    }
    let place = registry.position(&link.id);
    let mut links: Vec<Link> = Vec::new();
    core::mem::swap(&mut registry.links, &mut links);
    match place {
        Some(at) => {
            links.set(at, link);
            proof {
                assert(views(links@) =~= before.update(at as int, stored@));
                lemma_lists_replaced(before, old(registry)@, at as int, stored@);
            }
        },
        None => {
            links.push(link);
            proof {
                assert(views(links@) =~= before.push(stored@));
                lemma_lists_appended(before, old(registry)@, stored@);
            }
        },
    }
    registry.links = links;
    proof {
        lemma_written_records_list(registry.records());
        lemma_listing_fixes_table(registry.records(), registry@, table);
    }
    stored
}

/// Removes the record of `id` if there is one, and says whether there was.
pub fn delete(registry: &mut Registry, id: String) -> (removed: bool)
    ensures
        (final(registry)@, removed) == erase(old(registry)@, id@),
{
    let ghost before = registry.records();
    let ghost table = erase(registry@, id@).0;
    proof {
        use_type_invariant(&*registry);
        lemma_written_records_list(before);
    }
    match registry.position(&id) {
        Some(at) => {
            let mut links: Vec<Link> = Vec::new();
            core::mem::swap(&mut registry.links, &mut links);
            links.remove(at);
            proof {
                assert(views(links@) =~= before.remove(at as int));
                lemma_lists_removed(before, old(registry)@, at as int);
            }
            registry.links = links;
            proof {
                lemma_written_records_list(registry.records());
                lemma_listing_fixes_table(registry.records(), registry@, table);
            }
            true
        },
        None => {
            assert(table =~= old(registry)@);
            false
        },
    }
}

/// Whether a delete that touched `rows_affected` rows of a store removed a
/// record. A store that keeps one row for each identifier touches one row or
/// none.
pub fn removed(rows_affected: u64) -> (removed: bool)
    ensures
        removed == (rows_affected > 0),
{
    rows_affected > 0
}

/// Looks up the record of `id`.
pub fn get(registry: &Registry, id: String) -> (found: Option<Link>)
    ensures
        record(found) == lookup(registry@, id@),
{
    proof {
        use_type_invariant(registry);
        lemma_written_records_list(registry.records());
    }
    match registry.position(&id) {
        Some(at) => {
            let link = registry.links[at].clone();
            assert(lookup(registry@, registry.records()[at as int].id) == Some(
                registry.records()[at as int],
            ));
            Some(link)
        },
        None => None,
    }
}

/// Returns every stored record, one for each identifier.
pub fn get_all(registry: &Registry) -> (all: Vec<Link>)
    ensures
        lists(views(all@), registry@),
        all@.len() == registry@.dom().len(),
{
    let mut all: Vec<Link> = Vec::new();
    let mut at: usize = 0;
    while at < registry.links.len()
        invariant
            at <= registry.links.len(),
            all@.len() == at,
            forall|i: int| 0 <= i < at ==> (#[trigger] all@[i])@ == registry.links@[i]@,
        decreases registry.links.len() - at,
    {
        all.push(registry.links[at].clone());
        at += 1;
    }
    proof {
        use_type_invariant(registry);
        assert(views(all@) =~= registry.records());
        lemma_written_records_list(registry.records());
        lemma_listing_len(views(all@), registry@);
    }
    all
}

} // verus!
