//! The geo-database decoder, as far as this library relies on it.
//!
//! What the decoder computes is not restated here: its results are named, and
//! the names stand for functions of the database bytes and the address alone.

use crate::address::IpAddress;
use maxminddb::geoip2::City;
use vstd::prelude::*;

verus! {

/// What a database says of an address. A field that the database does not
/// provide is `None`. The coordinates are held as the bit patterns of the
/// IEEE 754 doubles that the database stores.
#[derive(Clone, Debug, PartialEq, Eq)]
pub struct GeoRecord {
    pub city: Option<String>,
    pub region: Option<String>,
    pub country: Option<String>,
    pub latitude_bits: Option<u64>,
    pub longitude_bits: Option<u64>,
}

/// The mathematical content of a [`GeoRecord`].
pub struct GeoRecordView {
    pub city: Option<Seq<char>>,
    pub region: Option<Seq<char>>,
    pub country: Option<Seq<char>>,
    pub latitude_bits: Option<u64>,
    pub longitude_bits: Option<u64>,
}

/// The characters of an optional text.
pub open spec fn text_view(text: Option<String>) -> Option<Seq<char>> {
    match text {
        Some(t) => Some(t@),
        None => None,
    }
}

impl View for GeoRecord {
    type V = GeoRecordView;

    open spec fn view(&self) -> GeoRecordView {
        GeoRecordView {
            city: text_view(self.city),
            region: text_view(self.region),
            country: text_view(self.country),
            latitude_bits: self.latitude_bits,
            longitude_bits: self.longitude_bits,
        }
    }
}

/// What the decoder hands back for one address: a record, no entry, or the
/// text of its error.
pub open spec fn found_view(found: Result<Option<GeoRecord>, String>) -> Result<
    Option<GeoRecordView>,
    Seq<char>,
> {
    match found {
        Ok(Some(record)) => Ok(Some(record@)),
        Ok(None) => Ok(None),
        Err(reason) => Err(reason@),
    }
}

/// An opened database: a `maxminddb::Reader` over the bytes it was opened
/// from. The reader's own type is bounded by `AsRef<[u8]>`, which the verifier
/// does not know, so the reader is held here, and nothing inside this struct
/// is visible to the verifier.
#[verifier::external_body]
pub struct Database {
    reader: maxminddb::Reader<Vec<u8>>,
}

/// The bytes that a database was opened from.
pub uninterp spec fn database_source(database: Database) -> Seq<u8>;

/// Whether `maxminddb::Reader::from_source` accepts `bytes`.
pub uninterp spec fn database_opens(bytes: Seq<u8>) -> bool;

/// What `maxminddb::Reader::lookup`, followed by decoding the entry as a
/// `geoip2::City`, gives for `address` in the database made of `source`.
pub uninterp spec fn city_lookup(source: Seq<u8>, address: IpAddress) -> Result<
    Option<GeoRecordView>,
    Seq<char>,
>;

/// Calls `maxminddb::Reader::from_source` on `bytes`. Claimed of it: whether
/// it accepts depends on the bytes alone, and the reader it returns keeps
/// exactly these bytes.
#[verifier::external_body]
pub(crate) fn open_database(bytes: Vec<u8>) -> (opened: Option<Database>)
    ensures
        opened is Some <==> database_opens(bytes@),
        opened matches Some(database) ==> database_source(database) == bytes@,
{
    maxminddb::Reader::from_source(bytes).ok().map(|reader| Database { reader })
}

/// Calls `maxminddb::Reader::lookup` for `address` and decodes the entry it
/// finds with `LookupResult::decode::<geoip2::City>`. Claimed of it: the
/// outcome depends on the database bytes and the address alone. The record
/// takes the English names of the city, of the first subdivision and of the
/// country, and the location's coordinates; an error is given as its text.
#[verifier::external_body]
pub(crate) fn lookup_city(database: &Database, address: IpAddress) -> (found: Result<
    Option<GeoRecord>,
    String,
>)
    ensures
        found_view(found) == city_lookup(database_source(*database), address),
{
    let ip = match address {
        IpAddress::V4(bits) => bits.to_be_bytes().into(),
        IpAddress::V6(bits) => bits.to_be_bytes().into(),
    };
    let entry = database.reader.lookup(ip).and_then(|at| at.decode::<City>());
    Ok(entry.map_err(|e| e.to_string())?.map(|c| GeoRecord {
        city: c.city.names.english.map(String::from),
        region: c.subdivisions.first().and_then(|s| s.names.english).map(String::from),
        country: c.country.names.english.map(String::from),
        latitude_bits: c.location.latitude.map(|v| v.to_bits()),
        longitude_bits: c.location.longitude.map(|v| v.to_bits()),
    }))
}

} // verus!
