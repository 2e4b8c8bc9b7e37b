use vstd::prelude::*;

use crate::number::{parse_u16, unsigned_literal};
use vstd::utf8::encode_utf8;

verus! {

/// Why a geocode could not be routed to a node.
#[derive(Clone, Copy, Debug, PartialEq, Eq)]
pub enum RouteError {
    /// The key-length policy does not fit the geocode.
    InvalidKeyLength,
    /// The ring has no node for the hash.
    NoNode,
    /// The owning node advertises no transfer port.
    MissingTransferPort,
    /// The owning node's transfer port is not a port number.
    BadTransferPort,
}

/// The part of `geocode` that is hashed under key-length policy `k`: all of
/// it for `0`, the suffix after the first `k` bytes for a positive `k`, the
/// prefix without the last `-k` bytes for a negative `k`; `None` when the
/// policy would leave nothing or reach past the geocode.
pub open spec fn route_key(geocode: Seq<u8>, k: int) -> Option<Seq<u8>> {
    let n = geocode.len() as int;
    if k == 0 {
        Some(geocode)
    } else if 0 < k && k < n {
        Some(geocode.subrange(k, n))
    } else if k < 0 && -k < n {
        Some(geocode.subrange(0, n + k))
    } else {
        None
    }
}

/// The stable 64-bit hash of a byte string that every node computes alike.
pub uninterp spec fn key_hash(b: Seq<u8>) -> u64;

/// Relies on `std::collections::hash_map::DefaultHasher`: a hasher made by
/// `new` is the same in every process, so the result depends on the bytes
/// alone.
#[verifier::external_body]
fn hash_bytes(b: &[u8]) -> (r: u64)
    ensures
        r == key_hash(b@),
{
    let mut hasher = std::collections::hash_map::DefaultHasher::new();
    std::hash::Hasher::write(&mut hasher, b);
    std::hash::Hasher::finish(&hasher)
}

/// The bytes of `geocode` that the key-length policy selects for hashing.
pub fn dht_key(geocode: &str, key_length: i8) -> (r: Result<Vec<u8>, RouteError>)
    ensures
        match route_key(encode_utf8(geocode@), key_length as int) {
            Some(key) => r == Ok::<Vec<u8>, RouteError>(r->Ok_0) && r->Ok_0@ == key,
            None => r == Err::<Vec<u8>, RouteError>(RouteError::InvalidKeyLength),
        },
{
    let bytes = geocode.as_bytes();
    let n = bytes.len();
    let k = key_length as i64;
    let (start, end): (usize, usize) = if k == 0 {
        (0, n)
    } else if 0 < k && (k as usize) < n {
        (k as usize, n)
    } else if k < 0 && ((-k) as usize) < n {
        (0, n - (-k) as usize)
    } else {
        return Err(RouteError::InvalidKeyLength);
    };
    let mut key: Vec<u8> = Vec::new();
    let mut i: usize = start;
    while i < end
        invariant
            start <= i <= end <= n,
            n == bytes@.len(),
            key@ == bytes@.subrange(start as int, i as int),
        decreases end - i,
    {
        key.push(bytes[i]);
        proof {
            assert(key@ =~= bytes@.subrange(start as int, i + 1));
        }
        i = i + 1;
    }
    proof {
        assert(bytes@.subrange(0, n as int) =~= bytes@);
    }
    Ok(key)
}

/// The ring position of `geocode` under a key-length policy: the stable hash
/// of the selected bytes.
pub fn route_hash(geocode: &str, key_length: i8) -> (r: Result<u64, RouteError>)
    ensures
        match route_key(encode_utf8(geocode@), key_length as int) {
            Some(key) => r == Ok::<u64, RouteError>(key_hash(key)),
            None => r == Err::<u64, RouteError>(RouteError::InvalidKeyLength),
        },
{
    match dht_key(geocode, key_length) {
        Ok(key) => Ok(hash_bytes(key.as_slice())),
        Err(e) => Err(e),
    }
}

/// A node as the ring reports it: its IP address and, if advertised, its
/// transfer port attribute.
#[derive(Clone, Debug)]
pub struct DhtNode {
    pub ip_address: String,
    pub xfer_port: Option<String>,
}

/// Where the transfer protocol of a node listens.
#[derive(Clone, Debug)]
pub struct TransferAddr {
    pub ip_address: String,
    pub port: u16,
}

/// The transfer address of the node that the ring located for a hash, or why
/// there is none.
pub fn transfer_addr(located: &Option<DhtNode>) -> (r: Result<TransferAddr, RouteError>)
    ensures
        match located {
            None => r == Err::<TransferAddr, RouteError>(RouteError::NoNode),
            Some(node) => match node.xfer_port {
                None => r == Err::<TransferAddr, RouteError>(RouteError::MissingTransferPort),
                Some(p) => match unsigned_literal(p@) {
                    Some(v) if v <= u16::MAX => r is Ok && r->Ok_0.ip_address@
                        == node.ip_address@ && r->Ok_0.port == v,
                    _ => r == Err::<TransferAddr, RouteError>(RouteError::BadTransferPort),
                },
            },
        },
{
    match located {
        None => Err(RouteError::NoNode),
        Some(node) => match &node.xfer_port {
            None => Err(RouteError::MissingTransferPort),
            Some(p) => match parse_u16(p.as_str()) {
                Some(port) => Ok(TransferAddr { ip_address: node.ip_address.clone(), port }),
                None => Err(RouteError::BadTransferPort),
            },
        },
    }
}

/// Key-length policies: `0` keeps the geocode, and a policy whose magnitude
/// reaches the geocode's length, on either side, is refused rather than
/// leaving an empty key.
pub proof fn lemma_key_length_edges(geocode: Seq<u8>, k: int)
    ensures
        route_key(geocode, 0) == Some(geocode),
        geocode.len() > 0 ==> route_key(geocode, geocode.len() as int) is None,
        geocode.len() > 0 ==> route_key(geocode, -(geocode.len() as int)) is None,
        (k >= geocode.len() || k <= -(geocode.len() as int)) && k != 0 ==> route_key(
            geocode,
            k,
        ) is None,
        route_key(geocode, k) is Some ==> (route_key(geocode, k)->0.len() > 0 || geocode.len()
            == 0),
{
}

/// Routing is a function of the geocode and the policy: geocodes that select
/// the same key land on the same ring position, so two lookups of one
/// geocode against an unchanged ring reach the same node.
pub proof fn lemma_route_deterministic(g1: Seq<u8>, g2: Seq<u8>, k: int)
    requires
        route_key(g1, k) == route_key(g2, k),
        route_key(g1, k) is Some,
    ensures
        key_hash(route_key(g1, k)->0) == key_hash(route_key(g2, k)->0),
{
}

} // verus!
