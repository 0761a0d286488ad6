//! Resolving a textual address against a snapshot.

use crate::address::{parse_address, spells, IpAddress};
use crate::database::{city_lookup, found_view, GeoRecord, GeoRecordView};
use crate::snapshot::{Snapshot, SnapshotStore};
use vstd::prelude::*;

verus! {

/// The result of looking an address up.
#[derive(Clone, Debug, PartialEq, Eq)]
pub enum LookupResult {
    /// The database holds an entry for the address.
    Found(GeoRecord),
    /// The database holds no entry for the address.
    NotFound,
    /// The database could not be read; the decoder's reason is kept.
    LookupFailed(String),
}

/// The mathematical content of a [`LookupResult`].
pub enum LookupView {
    Found(GeoRecordView),
    NotFound,
    LookupFailed(Seq<char>),
}

impl View for LookupResult {
    type V = LookupView;

    open spec fn view(&self) -> LookupView {
        match self {
            LookupResult::Found(record) => LookupView::Found(record@),
            LookupResult::NotFound => LookupView::NotFound,
            LookupResult::LookupFailed(reason) => LookupView::LookupFailed(reason@),
        }
    }
}

/// The text is no IPv4 or IPv6 address.
#[derive(Clone, Copy, Debug, PartialEq, Eq, Structural)]
pub struct InvalidAddress;

/// The lookup result that stands for what the decoder handed back.
pub open spec fn classify_view(found: Result<Option<GeoRecordView>, Seq<char>>) -> LookupView {
    match found {
        Ok(Some(record)) => LookupView::Found(record),
        Ok(None) => LookupView::NotFound,
        Err(reason) => LookupView::LookupFailed(reason),
    }
}

/// The result of looking `address` up in the database made of `source`.
pub open spec fn lookup_view(source: Seq<u8>, address: IpAddress) -> LookupView {
    classify_view(city_lookup(source, address))
}

/// Turns what the decoder handed back into a lookup result: an entry is
/// `Found`, no entry is `NotFound`, an error is `LookupFailed`.
pub fn classify(found: Result<Option<GeoRecord>, String>) -> (result: LookupResult)
    ensures
        result@ == classify_view(found_view(found)),
{
    match found {
        Ok(Some(record)) => LookupResult::Found(record),
        Ok(None) => LookupResult::NotFound,
        Err(reason) => LookupResult::LookupFailed(reason),
    }
}

/// Looks `address` up in `snapshot`, and in nothing else.
pub fn lookup(snapshot: &Snapshot, address: IpAddress) -> (result: LookupResult)
    ensures
        result@ == lookup_view(snapshot.source(), address),
{
    classify(snapshot.find(address))
}

/// What resolving `text` against the database made of `source` gives.
pub open spec fn resolves_to(
    source: Seq<u8>,
    text: Seq<char>,
    resolution: Result<LookupResult, InvalidAddress>,
) -> bool {
    match resolution {
        Ok(result) => exists|address: IpAddress|
            spells(text, address) && result@ == lookup_view(source, address),
        Err(_) => forall|address: IpAddress| !spells(text, address),
    }
}

/// Parses `text` and looks the address up in `snapshot`. A text that is no
/// address is refused; nothing but the snapshot is read.
pub fn resolve_in(snapshot: &Snapshot, text: &str) -> (resolution: Result<
    LookupResult,
    InvalidAddress,
>)
    ensures
        resolves_to(snapshot.source(), text@, resolution),
{
    match parse_address(text) {
        Some(address) => {
            assert(spells(text@, address));
            Ok(lookup(snapshot, address))
        },
        None => Err(InvalidAddress),
    }
}

/// Resolves `text` against the snapshot that is active when the call begins.
pub fn resolve(store: &SnapshotStore, text: &str) -> (resolution: Result<
    LookupResult,
    InvalidAddress,
>)
    requires
        store.is_ready(),
    ensures
        resolves_to(store.active().source(), text@, resolution),
{
    match store.current() {
        Some(snapshot) => resolve_in(&snapshot, text),
        None => Err(InvalidAddress),
    }
}

/// A lookup reads the one snapshot that it took when it began. Let
/// `history` be the snapshots that were active, one after another, while the
/// lookup ran, the first of them the one it took. Then what the lookup
/// returns is what one snapshot of `history` gives for the whole text: it is
/// never put together from two of them.
pub proof fn law_lookup_reads_one_snapshot(
    history: Seq<Snapshot>,
    text: Seq<char>,
    resolution: Result<LookupResult, InvalidAddress>,
)
    requires
        history.len() >= 1,
        resolves_to(history[0].source(), text, resolution),
    ensures
        exists|at: int|
            0 <= at < history.len() && resolves_to(
                (#[trigger] history[at]).source(),
                text,
                resolution,
            ),
{
    assert(resolves_to(history[0].source(), text, resolution));
}

} // verus!
