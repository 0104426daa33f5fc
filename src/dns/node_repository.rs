//! Member discovery: what the answers to the DNS queries of the mesh record
//! and of each member make of it.

use vstd::prelude::*;
use vstd::string::*;
use vstd::utf8::*;

use crate::error::NodeRepository;
use crate::model::{strings_view, Peer, PeerView, WIREGUARD_PORT};

verus! {

/// The decimal digit `d` as a character.
pub open spec fn digit_char(d: nat) -> char {
    ((d + 48) as u8) as char
}

/// The decimal notation of `n`, without leading zeros.
pub open spec fn decimal(n: nat) -> Seq<char>
    decreases n,
{
    if n < 10 {
        seq![digit_char(n)]
    } else {
        decimal(n / 10).push(digit_char(n % 10))
    }
}

/// The dotted-quad notation of an IPv4 address.
pub open spec fn dotted_quad(a: Seq<u8>) -> Seq<char> {
    decimal(a[0] as nat) + seq!['.'] + decimal(a[1] as nat) + seq!['.'] + decimal(a[2] as nat)
        + seq!['.'] + decimal(a[3] as nat)
}

/// The CIDR literal of the single-host route to an IPv4 address.
pub open spec fn host_route(a: [u8; 4]) -> Seq<char> {
    dotted_quad(a@) + seq!['/', '3', '2']
}

/// The host routes of a list of addresses, in the same order.
pub open spec fn host_routes(addrs: Seq<[u8; 4]>) -> Seq<Seq<char>> {
    addrs.map_values(|a: [u8; 4]| host_route(a))
}

/// Whether an IPv4 address lies in one of the private ranges 10.0.0.0/8,
/// 172.16.0.0/12 and 192.168.0.0/16.
pub open spec fn is_private(a: [u8; 4]) -> bool {
    a[0] == 10 || (a[0] == 172 && 16 <= a[1] < 32) || (a[0] == 192 && a[1] == 168)
}

/// Whether at least one address of the list is globally routable.
pub open spec fn any_public(addrs: Seq<[u8; 4]>) -> bool {
    exists|i: int| 0 <= i < addrs.len() && !is_private(#[trigger] addrs[i])
}

/// The site of a member: its address from the first `.` on, or nothing when
/// the address holds no `.`.
pub open spec fn site(addr: Seq<char>) -> Seq<char>
    decreases addr.len(),
{
    if addr.len() == 0 {
        addr
    } else if addr[0] == '.' {
        addr
    } else {
        site(addr.drop_first())
    }
}

/// The name under which a member publishes its key and its allowed addresses.
pub open spec fn wireguard_name(addr: Seq<char>) -> Seq<char> {
    "_wireguard."@ + addr
}

/// A failed DNS query, as the client reported it.
#[derive(Debug)]
pub struct DnsFailure {
    /// The server answered, but holds no record of the asked type and name.
    pub no_answer: bool,
    /// The client's own error.
    pub error: rsdns::Error,
}

/// Relies on `std::str::from_utf8`: it accepts exactly the valid UTF-8 byte
/// strings and yields the text they encode.
#[verifier::external_body]
fn decode_text(bytes: &Vec<u8>) -> (r: Option<String>)
    ensures
        match r {
            Some(s) => valid_utf8(bytes@) && s@ == decode_utf8(bytes@),
            None => !valid_utf8(bytes@),
        },
{
    std::str::from_utf8(bytes.as_slice()).ok().map(|s| s.to_string())
}

fn digit_text(d: u8) -> (r: &'static str)
    requires
        d < 10,
    ensures
        r@ == seq![digit_char(d as nat)],
{
    match d {
        0 => {
            proof {
                reveal_strlit("0");
            }
            "0"
        },
        1 => {
            proof {
                reveal_strlit("1");
            }
            "1"
        },
        2 => {
            proof {
                reveal_strlit("2");
            }
            "2"
        },
        3 => {
            proof {
                reveal_strlit("3");
            }
            "3"
        },
        4 => {
            proof {
                reveal_strlit("4");
            }
            "4"
        },
        5 => {
            proof {
                reveal_strlit("5");
            }
            "5"
        },
        6 => {
            proof {
                reveal_strlit("6");
            }
            "6"
        },
        7 => {
            proof {
                reveal_strlit("7");
            }
            "7"
        },
        8 => {
            proof {
                reveal_strlit("8");
            }
            "8"
        },
        _ => {
            proof {
                reveal_strlit("9");
            }
            "9"
        },
    }
}

/// Appends the decimal notation of `n` to `s`.
fn append_decimal(s: &mut String, n: u8)
    ensures
        final(s)@ == old(s)@ + decimal(n as nat),
{
    let ghost start = s@;
    if n >= 100 {
        s.append(digit_text(n / 100));
    }
    if n >= 10 {
        s.append(digit_text((n / 10) % 10));
    }
    s.append(digit_text(n % 10));
    proof {
        let m: nat = n as nat;
        if m >= 100 {
            assert(decimal(m / 100) == seq![digit_char(m / 100)]);
            assert(decimal(m / 10) == decimal((m / 10) / 10).push(digit_char((m / 10) % 10)));
            assert((m / 10) / 10 == m / 100);
        } else if m >= 10 {
            assert(decimal(m / 10) == seq![digit_char(m / 10)]);
        }
        assert(s@ =~= start + decimal(m));
    }
}

/// The CIDR literal (`a.b.c.d/32`) of the single-host route to `a`.
pub fn host_route_text(a: [u8; 4]) -> (r: String)
    ensures
        r@ == host_route(a),
{
    let mut s = String::new();
    append_decimal(&mut s, a[0]);
    s.append(".");
    append_decimal(&mut s, a[1]);
    s.append(".");
    append_decimal(&mut s, a[2]);
    s.append(".");
    append_decimal(&mut s, a[3]);
    s.append("/32");
    proof {
        reveal_strlit(".");
        reveal_strlit("/32");
        assert(s@ =~= host_route(a));
    }
    s
}

/// Whether `a` lies in one of the private IPv4 ranges.
pub fn is_private_ipv4(a: [u8; 4]) -> (r: bool)
    ensures
        r == is_private(a),
{
    a[0] == 10 || (a[0] == 172 && 16 <= a[1] && a[1] < 32) || (a[0] == 192 && a[1] == 168)
}

/// The host routes (`/32`) of the given addresses, in the order given.
pub fn host_routes_text(addrs: &Vec<[u8; 4]>) -> (r: Vec<String>)
    ensures
        strings_view(r@) == host_routes(addrs@),
{
    let mut r: Vec<String> = Vec::new();
    let mut i: usize = 0;
    while i < addrs.len()
        invariant
            i <= addrs.len(),
            strings_view(r@) == host_routes(addrs@.take(i as int)),
        decreases addrs.len() - i,
    {
        let ghost before = r@;
        r.push(host_route_text(addrs[i]));
        proof {
            assert(strings_view(r@) =~= strings_view(before).push(host_route(addrs@[i as int])));
            assert(host_routes(addrs@.take(i + 1)) =~= host_routes(addrs@.take(i as int)).push(
                host_route(addrs@[i as int]),
            ));
        }
        i = i + 1;
    }
    proof {
        assert(addrs@.take(addrs.len() as int) == addrs@);
    }
    r
}

/// The site of the member at `node_addr`: the address from its first `.` on.
pub fn site_of(node_addr: &str) -> (r: String)
    ensures
        r@ == site(node_addr@),
{
    let len: usize = node_addr.unicode_len();
    let mut i: usize = 0;
    proof {
        assert(node_addr@.skip(0) == node_addr@);
    }
    while i < len && node_addr.get_char(i) != '.'
        invariant
            len == node_addr@.len(),
            i <= len,
            site(node_addr@) == site(node_addr@.skip(i as int)),
        decreases len - i,
    {
        proof {
            assert(node_addr@.skip(i as int).drop_first() == node_addr@.skip(i + 1));
        }
        i = i + 1;
    }
    proof {
        assert(node_addr@.skip(i as int) == node_addr@.subrange(i as int, len as int));
    }
    node_addr.substring_char(i, len).to_string()
}

/// The name `_wireguard.<node_addr>` that holds a member's key and addresses.
pub fn wireguard_record_name(node_addr: &str) -> (r: String)
    ensures
        r@ == wireguard_name(node_addr@),
{
    let mut name = String::from_str("_wireguard.");
    name.append(node_addr);
    name
}

/// Whether the member has a public IPv4 address, from the answer to the A
/// query of its own address.
///
/// An answer without records of that type means no public address; any
/// other failure of the query is reported.
pub fn public_ipv4_flag(own_a: Result<Vec<[u8; 4]>, DnsFailure>) -> (r: Result<
    bool,
    NodeRepository,
>)
    ensures
        match own_a {
            Ok(addrs) => r == Ok::<bool, NodeRepository>(any_public(addrs@)),
            Err(f) => if f.no_answer {
                r == Ok::<bool, NodeRepository>(false)
            } else {
                r == Err::<bool, NodeRepository>(NodeRepository::Rsdns(f.error))
            },
        },
{
    match own_a {
        Ok(addrs) => {
            let mut i: usize = 0;
            while i < addrs.len()
                invariant
                    own_a matches Ok(v) && v@ == addrs@,
                    i <= addrs.len(),
                    forall|j: int| 0 <= j < i ==> is_private(#[trigger] addrs@[j]),
                decreases addrs.len() - i,
            {
                if !is_private_ipv4(addrs[i]) {
                    proof {
                        assert(!is_private(addrs@[i as int]));
                    }
                    return Ok(true);
                }
                i = i + 1;
            }
            Ok(false)
        },
        Err(f) => {
            if f.no_answer {
                Ok(false)
            } else {
                Err(NodeRepository::Rsdns(f.error))
            }
        },
    }
}

/// The member that the DNS answers describe: reachable at `addr` on the
/// WireGuard port, grouped by the site of `addr`, and routing for a host
/// route to each address published under its WireGuard name.
pub open spec fn resolved_peer(
    addr: Seq<char>,
    has_public: bool,
    key: Seq<char>,
    addrs: Seq<[u8; 4]>,
) -> PeerView {
    PeerView {
        public_key: key,
        allowed_ips: host_routes(addrs),
        endpoint_host: addr,
        endpoint_port: WIREGUARD_PORT,
        site: site(addr),
        has_public_ipv4_address: has_public,
    }
}

/// Whether every byte string of the list is valid UTF-8.
pub open spec fn all_utf8(records: Seq<Vec<u8>>) -> bool {
    forall|i: int| 0 <= i < records.len() ==> valid_utf8(#[trigger] records[i]@)
}

/// The texts that a list of byte strings encodes.
pub open spec fn decoded_texts(records: Seq<Vec<u8>>) -> Seq<Seq<char>> {
    records.map_values(|b: Vec<u8>| decode_utf8(b@))
}

/// The first failure in a list of lookups, if any.
pub open spec fn first_failure(results: Seq<Result<Peer, NodeRepository>>) -> Option<
    NodeRepository,
>
    decreases results.len(),
{
    if results.len() == 0 {
        None
    } else if results[0] is Err {
        Some(results[0]->Err_0)
    } else {
        first_failure(results.drop_first())
    }
}

/// The public key of a member, from the answer to the TXT query of its
/// WireGuard name `qname`: the text of the first record.
///
/// No record, or an answer without records of that type, is
/// `MissingPubkeyRecord(qname)`; a record that is not UTF-8 is
/// `MalformedTxtRecord(qname)`.
pub fn pubkey_from_txt(qname: &str, txt: Result<Vec<Vec<u8>>, DnsFailure>) -> (r: Result<
    String,
    NodeRepository,
>)
    ensures
        match txt {
            Err(f) => if f.no_answer {
                r matches Err(NodeRepository::MissingPubkeyRecord(n)) && n@ == qname@
            } else {
                r == Err::<String, NodeRepository>(NodeRepository::Rsdns(f.error))
            },
            Ok(records) => if records.len() == 0 {
                r matches Err(NodeRepository::MissingPubkeyRecord(n)) && n@ == qname@
            } else if valid_utf8(records@[0]@) {
                r matches Ok(k) && k@ == decode_utf8(records@[0]@)
            } else {
                r matches Err(NodeRepository::MalformedTxtRecord(n)) && n@ == qname@
            },
        },
{
    match txt {
        Err(f) => {
            if f.no_answer {
                Err(NodeRepository::MissingPubkeyRecord(qname.to_string()))
            } else {
                Err(NodeRepository::Rsdns(f.error))
            }
        },
        Ok(records) => {
            if records.len() == 0 {
                Err(NodeRepository::MissingPubkeyRecord(qname.to_string()))
            } else {
                match decode_text(&records[0]) {
                    Some(key) => Ok(key),
                    None => Err(NodeRepository::MalformedTxtRecord(qname.to_string())),
                }
            }
        },
    }
}

/// The member addresses of the mesh, from the answer to the TXT query of the
/// mesh record: one address per record, in the order of the answer.
///
/// A record that is not UTF-8 is `MalformedTxtRecord(mesh_record)`.
pub fn mesh_members(mesh_record: &str, txt: Result<Vec<Vec<u8>>, DnsFailure>) -> (r: Result<
    Vec<String>,
    NodeRepository,
>)
    ensures
        match txt {
            Err(f) => r == Err::<Vec<String>, NodeRepository>(NodeRepository::Rsdns(f.error)),
            Ok(records) => if all_utf8(records@) {
                r matches Ok(members) && strings_view(members@) == decoded_texts(records@)
            } else {
                r matches Err(NodeRepository::MalformedTxtRecord(n)) && n@ == mesh_record@
            },
        },
{
    match txt {
        Err(f) => Err(NodeRepository::Rsdns(f.error)),
        Ok(records) => {
            let mut members: Vec<String> = Vec::new();
            let mut i: usize = 0;
            while i < records.len()
                invariant
                    txt matches Ok(v) && v@ == records@,
                    i <= records.len(),
                    all_utf8(records@.take(i as int)),
                    strings_view(members@) == decoded_texts(records@.take(i as int)),
                decreases records.len() - i,
            {
                match decode_text(&records[i]) {
                    Some(text) => {
                        let ghost before = members@;
                        members.push(text);
                        proof {
                            assert(strings_view(members@) =~= strings_view(before).push(
                                decode_utf8(records@[i as int]@),
                            ));
                            assert(decoded_texts(records@.take(i + 1)) =~= decoded_texts(
                                records@.take(i as int),
                            ).push(decode_utf8(records@[i as int]@)));
                            assert(records@.take(i + 1)[i as int] == records@[i as int]);
                            assert forall|j: int| 0 <= j < i + 1 implies valid_utf8(
                                #[trigger] records@.take(i + 1)[j]@,
                            ) by {
                                if j < i {
                                    assert(records@.take(i + 1)[j] == records@.take(i as int)[j]);
                                }
                            }
                        }
                    },
                    None => {
                        proof {
                            assert(!all_utf8(records@));
                        }
                        return Err(NodeRepository::MalformedTxtRecord(mesh_record.to_string()));
                    },
                }
                i = i + 1;
            }
            proof {
                assert(records@.take(records.len() as int) == records@);
            }
            Ok(members)
        },
    }
}

/// The member at `node_addr`, from what the first two queries gave and the
/// answer to the A query of its WireGuard name, which lists the addresses it
/// routes for.
pub fn peer_from_answers(
    node_addr: &str,
    has_public_ipv4_address: bool,
    public_key: String,
    allowed_a: Result<Vec<[u8; 4]>, DnsFailure>,
) -> (r: Result<Peer, NodeRepository>)
    ensures
        match allowed_a {
            Err(f) => r == Err::<Peer, NodeRepository>(NodeRepository::Rsdns(f.error)),
            Ok(addrs) => r matches Ok(p) && p@ == resolved_peer(
                node_addr@,
                has_public_ipv4_address,
                public_key@,
                addrs@,
            ),
        },
{
    match allowed_a {
        Err(f) => Err(NodeRepository::Rsdns(f.error)),
        Ok(addrs) => {
            let allowed_ips = host_routes_text(&addrs);
            Ok(
                Peer {
                    public_key,
                    allowed_ips,
                    endpoint: (node_addr.to_string(), WIREGUARD_PORT),
                    site: site_of(node_addr),
                    has_public_ipv4_address,
                },
            )
        },
    }
}

/// All members, or the first failure among their lookups: the mesh is
/// resolved whole or not at all.
pub fn collect_peers(results: Vec<Result<Peer, NodeRepository>>) -> (r: Result<
    Vec<Peer>,
    NodeRepository,
>)
    ensures
        match first_failure(results@) {
            Some(e) => r == Err::<Vec<Peer>, NodeRepository>(e),
            None => r matches Ok(peers) && peers@ == results@.map_values(
                |x: Result<Peer, NodeRepository>| x->Ok_0,
            ),
        },
{
    let ghost all = results@;
    let mut rest = results;
    let mut peers: Vec<Peer> = Vec::new();
    let mut i: usize = 0;
    proof {
        assert(all.skip(0) == all);
        assert(rest@.len() == rest.len());
    }
    while rest.len() > 0
        invariant
            all == results@,
            i + rest.len() == all.len(),
            all.len() <= usize::MAX,
            rest@ == all.skip(i as int),
            first_failure(all) == first_failure(rest@),
            peers@ == all.take(i as int).map_values(|x: Result<Peer, NodeRepository>| x->Ok_0),
            forall|j: int| 0 <= j < i ==> (#[trigger] all[j]) is Ok,
        decreases rest.len(),
    {
        let ghost before = peers@;
        let ghost old_rest = rest@;
        proof {
            assert(rest@.drop_first() == all.skip(i + 1));
            assert(all[i as int] == old_rest[0]);
        }
        match rest.remove(0) {
            Ok(p) => {
                peers.push(p);
                proof {
                    assert(rest@ == old_rest.drop_first());
                    assert(all.take(i + 1).map_values(|x: Result<Peer, NodeRepository>| x->Ok_0)
                        =~= before.push(all[i as int]->Ok_0));
                }
            },
            Err(e) => {
                proof {
                    assert(first_failure(old_rest) == Some(e));
                }
                return Err(e);
            },
        }
        i = i + 1;
    }
    proof {
        assert(all.take(i as int) == all);
    }
    Ok(peers)
}

} // verus!
