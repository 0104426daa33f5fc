//! Choice of the nameserver from the resolver configuration.

use vstd::prelude::*;

use crate::error::NodeRepository;

verus! {

/// The port on which nameservers answer.
pub const DNS_PORT: u16 = 53;

/// The nameservers that a resolver configuration file lists, in order: the
/// octets of each address (4 for IPv4, 16 for IPv6) and its scope, if any;
/// `None` when the file does not parse.
pub uninterp spec fn resolv_conf_nameservers(contents: Seq<u8>) -> Option<
    Seq<(Seq<u8>, Option<Seq<char>>)>,
>;

pub open spec fn nameservers_view(v: Seq<(Vec<u8>, Option<String>)>) -> Seq<
    (Seq<u8>, Option<Seq<char>>),
> {
    v.map_values(
        |x: (Vec<u8>, Option<String>)|
            (
                x.0@,
                match x.1 {
                    Some(s) => Some(s@),
                    None => None,
                },
            ),
    )
}

/// Relies on `resolv_conf::Config::parse` and its `nameservers` list, whose
/// entries are an IPv4 address or an IPv6 address with an optional scope.
#[verifier::external_body]
fn parse_nameservers(contents: &Vec<u8>) -> (r: Option<Vec<(Vec<u8>, Option<String>)>>)
    ensures
        match r {
            Some(v) => resolv_conf_nameservers(contents@) == Some(nameservers_view(v@))
                && forall|i: int|
                0 <= i < v.len() ==> (#[trigger] v@[i]).0.len() == 16 || (v@[i].0.len() == 4
                    && v@[i].1 is None),
            None => resolv_conf_nameservers(contents@) is None,
        },
{
    resolv_conf::Config::parse(contents).ok().map(|c| c.nameservers.iter().map(|ns| match ns {
        resolv_conf::ScopedIp::V4(a) => (a.octets().to_vec(), None),
        resolv_conf::ScopedIp::V6(a, scope) => (a.octets().to_vec(), scope.clone()),
    }).collect())
}

/// The address of a nameserver: 4 octets for IPv4, 16 for IPv6, and a port.
#[derive(Debug)]
pub struct Nameserver {
    pub address: Vec<u8>,
    pub port: u16,
}

/// The nameserver to query, from the contents of a resolver configuration
/// file: the first one it lists, on the DNS port.
///
/// A file that does not parse, that lists no nameserver, or whose first
/// nameserver carries an IPv6 scope is `InvalidNameserver`.
pub fn from_resolv_conf(contents: &Vec<u8>) -> (r: Result<Nameserver, NodeRepository>)
    ensures
        match resolv_conf_nameservers(contents@) {
            Some(list) => if list.len() > 0 && list[0].1 is None {
                r matches Ok(ns) && ns.address@ == list[0].0 && ns.port == DNS_PORT && (
                ns.address.len() == 4 || ns.address.len() == 16)
            } else {
                r matches Err(NodeRepository::InvalidNameserver(_))
            },
            None => r matches Err(NodeRepository::InvalidNameserver(_)),
        },
{
    match parse_nameservers(contents) {
        None => Err(NodeRepository::InvalidNameserver("invalid resolv.conf".to_string())),
        Some(list) => {
            if list.len() == 0 {
                return Err(NodeRepository::InvalidNameserver("no nameserver in resolv.conf".to_string()));
            }
            proof {
                assert(nameservers_view(list@)[0] == (list@[0].0@, match list@[0].1 {
                    Some(s) => Some(s@),
                    None => None::<Seq<char>>,
                }));
            }
            let (octets, scope) = &list[0];
            match scope {
                Some(_) => Err(
                    NodeRepository::InvalidNameserver("scoped IPv6 nameserver".to_string()),
                ),
                None => Ok(Nameserver { address: octets.clone(), port: DNS_PORT }),
            }
        },
    }
}

} // verus!
