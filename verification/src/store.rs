//! The index store: a concurrent map from record id to record.
//!
//! The store is dashmap's sharded map, so population and queries may run
//! concurrently without an external lock; a reader that overlaps a rebuild
//! may observe a partially cleared or partially repopulated store.  The
//! contracts here speak only of the contents between this crate's own calls.

use vstd::prelude::*;
use crate::models::{RecordV, SearchResult, record_views};

verus! {

/// dashmap's concurrent map, declared so that it can stand in a field.
#[verifier::external_type_specification]
#[verifier::external_body]
#[verifier::reject_recursive_types(K)]
#[verifier::reject_recursive_types(V)]
#[verifier::reject_recursive_types(S)]
pub struct ExDashMap<K, V, S>(dashmap::DashMap<K, V, S>);

/// What a store holds: a finite map from key to the stored record's view.
pub uninterp spec fn store_map(m: dashmap::DashMap<String, SearchResult>) -> Map<
    Seq<char>,
    RecordV,
>;

/// The empty store contents.
pub open spec fn empty_contents() -> Map<Seq<char>, RecordV> {
    Map::empty()
}

/// `vs` lists the contents of `m`: one element per key, each element the
/// value of some key, and every key's value present.  Beyond that the order
/// is arbitrary: dashmap iteration has no ordering guarantee.
pub open spec fn is_store_listing(vs: Seq<RecordV>, m: Map<Seq<char>, RecordV>) -> bool {
    &&& vs.len() == m.dom().len()
    &&& forall|i: int|
        0 <= i < vs.len() ==> exists|k: Seq<char>|
            #[trigger] m.dom().contains(k) && m[k] == #[trigger] vs[i]
    &&& forall|k: Seq<char>|
        #[trigger] m.dom().contains(k) ==> exists|i: int| 0 <= i < vs.len() && vs[i] == m[k]
}

/// The concurrent id-to-record map behind an [`crate::indexer::Indexer`].
pub struct IndexStore {
    pub(crate) map: dashmap::DashMap<String, SearchResult>,
}

impl IndexStore {
    /// Relies on dashmap::DashMap::new: creates an empty map.
    #[verifier::external_body]
    pub(crate) fn new() -> (s: Self)
        ensures
            store_map(s.map) == empty_contents(),
    {
        IndexStore { map: dashmap::DashMap::new() }
    }

    /// Relies on dashmap::DashMap::clear: removes every entry.
    #[verifier::external_body]
    pub(crate) fn clear(&mut self)
        ensures
            store_map(final(self).map) == empty_contents(),
    {
        self.map.clear();
    }

    /// Relies on dashmap::DashMap::insert: upserts by key.  The record is
    /// keyed by its own id, so re-insertion with the same id overwrites.
    #[verifier::external_body]
    pub(crate) fn insert(&mut self, record: SearchResult)
        ensures
            store_map(final(self).map) == store_map(old(self).map).insert(record.id@, record@),
    {
        self.map.insert(record.id.clone(), record);
    }

    /// Relies on dashmap::DashMap::iter: visits every entry exactly once, in
    /// no particular order; each visited record is cloned out.
    #[verifier::external_body]
    pub(crate) fn entries(&self) -> (r: Vec<SearchResult>)
        ensures
            is_store_listing(record_views(r@), store_map(self.map)),
    {
        let mut out = Vec::new();
        for e in self.map.iter() {
            out.push(e.value().clone());
        }
        out
    }
}

} // verus!
