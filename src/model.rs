//! The mesh member as discovery resolves it, and its mathematical value.

use vstd::prelude::*;

verus! {

/// Port on which every mesh member is expected to accept WireGuard traffic.
pub const WIREGUARD_PORT: u16 = 51820;

/// A discovered mesh member, fully resolved from DNS.
#[derive(Debug, PartialEq)]
pub struct Peer {
    pub public_key: String,
    pub allowed_ips: Vec<String>,
    pub endpoint: (String, u16),
    pub site: String,
    pub has_public_ipv4_address: bool,
}

/// The mathematical value of a [`Peer`].
pub struct PeerView {
    pub public_key: Seq<char>,
    pub allowed_ips: Seq<Seq<char>>,
    pub endpoint_host: Seq<char>,
    pub endpoint_port: u16,
    pub site: Seq<char>,
    pub has_public_ipv4_address: bool,
}

pub open spec fn strings_view(v: Seq<String>) -> Seq<Seq<char>> {
    v.map_values(|s: String| s@)
}

impl View for Peer {
    type V = PeerView;

    open spec fn view(&self) -> PeerView {
        PeerView {
            public_key: self.public_key@,
            allowed_ips: strings_view(self.allowed_ips@),
            endpoint_host: self.endpoint.0@,
            endpoint_port: self.endpoint.1,
            site: self.site@,
            has_public_ipv4_address: self.has_public_ipv4_address,
        }
    }
}

pub open spec fn peers_view(v: Seq<Peer>) -> Seq<PeerView> {
    v.map_values(|p: Peer| p@)
}

/// Copies a list of strings element by element.
pub fn copy_strings(v: &Vec<String>) -> (r: Vec<String>)
    ensures
        strings_view(r@) == strings_view(v@),
{
    let mut r: Vec<String> = Vec::new();
    let mut i: usize = 0;
    while i < v.len()
        invariant
            i <= v.len(),
            strings_view(r@) == strings_view(v@.take(i as int)),
        decreases v.len() - i,
    {
        let s = v[i].clone();
        let ghost before = r@;
        r.push(s);
        proof {
            assert(r@ == before.push(v@[i as int]));
            assert(v@.take(i + 1) == v@.take(i as int).push(v@[i as int]));
            assert(strings_view(r@) =~= strings_view(before).push(v@[i as int]@));
            assert(strings_view(v@.take(i + 1)) =~= strings_view(v@.take(i as int)).push(
                v@[i as int]@,
            ));
        }
        i = i + 1;
    }
    proof {
        assert(v@.take(v.len() as int) == v@);
    }
    r
}

impl Peer {
    /// A copy of this peer with the same value.
    pub fn copy(&self) -> (r: Peer)
        ensures
            r@ == self@,
    {
        Peer {
            public_key: self.public_key.clone(),
            allowed_ips: copy_strings(&self.allowed_ips),
            endpoint: (self.endpoint.0.clone(), self.endpoint.1),
            site: self.site.clone(),
            has_public_ipv4_address: self.has_public_ipv4_address,
        }
    }
}

} // verus!
