//! The country of an address, by an offline MaxMind country database.
//!
//! The log of decisions is stamped with it. What is looked up is the address as it is logged,
//! and nothing leaves the machine.
use vstd::prelude::*;

use crate::net::IpAddr;

verus! {

/// A country database: a `maxminddb::Reader` over its bytes.
#[verifier::external_body]
pub struct GeoIp {
    reader: maxminddb::Reader<Vec<u8>>,
}

/// What a database holds: the text at `country`, `iso_code` in the record of each address
/// whose record has one.
pub uninterp spec fn countries(database: GeoIp) -> Map<IpAddr, Seq<char>>;

/// What the bytes of a database hold, as `maxminddb::Reader::from_source` reads them.
pub uninterp spec fn countries_in(bytes: Seq<u8>) -> Map<IpAddr, Seq<char>>;

/// `maxminddb::Reader::from_source`. The claim is that what a database that could be read
/// holds depends on its bytes alone. When one can be read is left unsaid: the time that it was
/// built at must be one that the machine can represent, among other things.
#[verifier::external_body]
fn read_database(bytes: Vec<u8>) -> (r: Result<GeoIp, String>)
    ensures
        r matches Ok(database) ==> countries(database) == countries_in(bytes@),
{
    match maxminddb::Reader::from_source(bytes) {
        Ok(reader) => Ok(GeoIp { reader }),
        Err(e) => Err(e.to_string()),
    }
}

/// `maxminddb::Reader::lookup`, and in the record that it finds
/// `maxminddb::LookupResult::decode_path` to `country`, `iso_code`. The claim is that the
/// result depends on the address and on what the database holds; an address without a record,
/// without such a text or with one that cannot be read has none.
#[verifier::external_body]
fn look_up_country(database: &GeoIp, ip: IpAddr) -> (r: Option<String>)
    ensures
        match r {
            Some(code) => countries(*database).contains_key(ip) && countries(*database)[ip]
                == code@,
            None => !countries(*database).contains_key(ip),
        },
{
    let path = [maxminddb::PathElement::Key("country"), maxminddb::PathElement::Key("iso_code")];
    let found = match ip {
        IpAddr::V4(bits) => database.reader.lookup(bits.to_be_bytes().into()),
        IpAddr::V6(bits) => database.reader.lookup(bits.to_be_bytes().into()),
    };
    found.ok()?.decode_path::<String>(&path).ok()?
}

impl GeoIp {
    /// Reads a database from the bytes of its file, or tells why it cannot be read.
    pub fn open(bytes: Vec<u8>) -> (r: Result<Self, String>)
        ensures
            r matches Ok(database) ==> countries(database) == countries_in(bytes@),
    {
        read_database(bytes)
    }

    /// The ISO code of the country of an address. None where the address is unknown or its
    /// record cannot be read: the log does without it.
    pub fn country(&self, ip: IpAddr) -> (r: Option<String>)
        ensures
            match r {
                Some(code) => countries(*self).contains_key(ip) && countries(*self)[ip] == code@,
                None => !countries(*self).contains_key(ip),
            },
    {
        look_up_country(self, ip)
    }
}

} // verus!
