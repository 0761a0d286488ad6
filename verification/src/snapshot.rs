//! Snapshots of the geo-database and the store that holds the active one.

use crate::address::IpAddress;
use crate::database::{
    city_lookup, database_opens, database_source, found_view, lookup_city, open_database,
    Database, GeoRecord,
};
use std::sync::Arc;
use vstd::prelude::*;

verus! {

/// An opened database and the time at which it was made. A snapshot is never
/// changed once it exists.
pub struct Snapshot {
    database: Database,
    created: u64,
}

impl Snapshot {
    /// The bytes that the snapshot was opened from.
    pub closed spec fn source(&self) -> Seq<u8> {
        database_source(self.database)
    }

    /// The time that the snapshot was made at.
    pub closed spec fn created_at(&self) -> u64 {
        self.created
    }

    /// Opens `bytes` as a database. Succeeds exactly on the bytes that the
    /// decoder accepts.
    pub fn open(bytes: Vec<u8>, now: u64) -> (snapshot: Option<Snapshot>)
        ensures
            snapshot is Some <==> database_opens(bytes@),
            snapshot matches Some(s) ==> s.source() == bytes@ && s.created_at() == now,
    {
        match open_database(bytes) {
            Some(database) => Some(Snapshot { database, created: now }),
            None => None,
        }
    }

    /// The time that the snapshot was made at.
    pub fn created(&self) -> (at: u64)
        ensures
            at == self.created_at(),
    {
        self.created
    }

    /// What the decoder gives for `address` in this snapshot.
    pub fn find(&self, address: IpAddress) -> (found: Result<Option<GeoRecord>, String>)
        ensures
            found_view(found) == city_lookup(self.source(), address),
    {
        lookup_city(&self.database, address)
    }
}

/// Calls `Arc::clone`, which makes another pointer to the same allocation:
/// the two point to one value.
#[verifier::external_body]
fn share(snapshot: &Arc<Snapshot>) -> (shared: Arc<Snapshot>)
    ensures
        shared == *snapshot,
{
    Arc::clone(snapshot)
}

/// Holds the active snapshot. Empty until the first snapshot is installed,
/// and never empty again after that.
pub struct SnapshotStore {
    active: Option<Arc<Snapshot>>,
}

impl SnapshotStore {
    /// The active snapshot, or `None` while none has been installed.
    pub closed spec fn content(&self) -> Option<Snapshot> {
        match self.active {
            Some(snapshot) => Some(*snapshot),
            None => None,
        }
    }

    /// Whether a snapshot has been installed.
    pub open spec fn is_ready(&self) -> bool {
        self.content() is Some
    }

    /// The active snapshot of a store that is ready.
    pub open spec fn active(&self) -> Snapshot {
        self.content()->0
    }

    /// A store without a snapshot.
    pub fn empty() -> (store: SnapshotStore)
        ensures
            !store.is_ready(),
    {
        SnapshotStore { active: None }
    }

    /// A store that holds `initial`.
    pub fn new(initial: Snapshot) -> (store: SnapshotStore)
        ensures
            store.is_ready(),
            store.active() == initial,
    {
        SnapshotStore { active: Some(Arc::new(initial)) }
    }

    /// Whether a snapshot has been installed.
    pub fn ready(&self) -> (ready: bool)
        ensures
            ready == self.is_ready(),
    {
        self.active.is_some()
    }

    /// A reference to the active snapshot, which stays valid and unchanged
    /// whatever is installed later. `None` only while the store is empty.
    pub fn current(&self) -> (current: Option<Arc<Snapshot>>)
        ensures
            current is Some <==> self.is_ready(),
            current matches Some(snapshot) ==> *snapshot == self.active(),
    {
        match &self.active {
            Some(snapshot) => Some(share(snapshot)),
            None => None,
        }
    }

    /// Makes `snapshot` the active one and hands back the one it replaces.
    pub fn swap(&mut self, snapshot: Snapshot) -> (previous: Option<Arc<Snapshot>>)
        ensures
            final(self).is_ready(),
            final(self).active() == snapshot,
            previous is Some <==> old(self).is_ready(),
            previous matches Some(p) ==> *p == old(self).active(),
    {
        let previous = self.active.take();
        self.active = Some(Arc::new(snapshot));
        previous
    }
}

} // verus!
