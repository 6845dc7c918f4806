//! What a node advertises of itself on the local network, and how the
//! advertisements of others are read.
//!
//! Discovery itself is the caller's: it announces, browses and reports. The
//! functions here fix what is announced and what a report means.

use crate::text::{before_first, index_of, utf8};
use vstd::prelude::*;
use vstd::string::StringExecFns;

verus! {

/// The byte `'.'`.
pub const DOT: u8 = 46u8;

/// The service type under which nodes advertise themselves.
pub fn service_type() -> (r: &'static str)
    ensures
        r@ == "_ucp._tcp.local."@,
{
    "_ucp._tcp.local."
}

/// The host name under which a device advertises itself.
pub fn service_hostname(device_id: &str) -> (r: String)
    ensures
        r@ == device_id@ + ".local."@,
{
    device_id.to_owned().concat(".local.")
}

/// One property of an advertisement.
pub struct Property {
    pub key: String,
    pub value: String,
}

/// The properties that a node advertises: the protocol version, its
/// identifier, the name of its cluster and its visible host name.
pub fn advertisement(device_id: &str, network_name: &str, hostname: &str) -> (r: Vec<Property>)
    ensures
        r@.len() == 4,
        r@[0].key@ == "version"@ && r@[0].value@ == "0.1.0"@,
        r@[1].key@ == "id"@ && r@[1].value@ == device_id@,
        r@[2].key@ == "n"@ && r@[2].value@ == network_name@,
        r@[3].key@ == "h"@ && r@[3].value@ == hostname@,
{
    let mut out: Vec<Property> = Vec::new();
    out.push(Property { key: String::from_str("version"), value: String::from_str("0.1.0") });
    out.push(Property { key: String::from_str("id"), value: device_id.to_owned() });
    out.push(Property { key: String::from_str("n"), value: network_name.to_owned() });
    out.push(Property { key: String::from_str("h"), value: hostname.to_owned() });
    out
}

/// The identifier of the device whose service has the full name given: the
/// part before the first dot.
pub fn id_of_fullname(fullname: &str) -> (r: String)
    ensures
        utf8(r@) == utf8(fullname@).take(index_of(utf8(fullname@), DOT)),
{
    before_first(fullname, DOT).to_owned()
}

/// The identifier that an advertisement states, or `"unknown"` where it
/// states none.
pub fn advertised_id(id: Option<String>) -> (r: String)
    ensures
        r@ == (match id {
            Some(s) => s@,
            None => "unknown"@,
        }),
{
    match id {
        Some(s) => s,
        None => String::from_str("unknown"),
    }
}

/// The host name to show for an advertised device: its `h` property, else
/// its `hostname` property, else the host name of the service.
pub fn advertised_hostname(h: Option<String>, hostname: Option<String>, service: String) -> (r:
    String)
    ensures
        r@ == (match h {
            Some(s) => s@,
            None => match hostname {
                Some(s) => s@,
                None => service@,
            },
        }),
{
    match h {
        Some(s) => s,
        None => match hostname {
            Some(s) => s,
            None => service,
        },
    }
}

} // verus!
