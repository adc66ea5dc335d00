//! Addresses, and the identities of endpoints.

use vstd::bytes::{
    lemma_auto_spec_u128_to_from_le_bytes, spec_u128_from_le_bytes, spec_u128_to_le_bytes,
    u128_from_le_bytes, u128_to_le_bytes,
};
use vstd::prelude::*;
use vstd::slice::slice_subrange;

verus! {

/// An IP address as a number in network order.
#[derive(Debug, Clone, Copy, PartialEq, Eq, PartialOrd, Ord, Hash, Structural)]
pub enum IpAddr {
    V4(u32),
    V6(u128),
}

/// An IP address and a port.
#[allow(inconsistent_fields)]
#[derive(Debug, Clone, Copy, PartialEq, Eq, PartialOrd, Ord, Hash, Structural)]
pub enum SocketAddr {
    V4 { ip: u32, port: u16 },
    V6 { ip: u128, port: u16, flowinfo: u32, scope_id: u32 },
}

/// The number of IPv4 addresses.
pub const IPV4_SPACE: u128 = 0x1_0000_0000;

/// What precedes the IPv4 address in an IPv4-mapped IPv6 address
/// (`::ffff:a.b.c.d`).
pub const IPV4_MAPPED_PREFIX: u128 = 0xffff;

impl SocketAddr {
    /// The address in canonical form: an IPv4-mapped IPv6 address is the
    /// IPv4 address that it stands for, and what is left of IPv6 carries
    /// neither flow information nor a scope.
    pub open spec fn canonical(self) -> SocketAddr {
        match self {
            SocketAddr::V4 { .. } => self,
            SocketAddr::V6 { ip, port, .. } => if ip / IPV4_SPACE == IPV4_MAPPED_PREFIX {
                SocketAddr::V4 { ip: (ip % IPV4_SPACE) as u32, port }
            } else {
                SocketAddr::V6 { ip, port, flowinfo: 0, scope_id: 0 }
            },
        }
    }

    /// Returns the address in canonical form.
    pub fn to_canonical(self) -> (r: SocketAddr)
        ensures
            r == self.canonical(),
    {
        match self {
            SocketAddr::V4 { .. } => self,
            SocketAddr::V6 { ip, port, .. } => {
                if ip / IPV4_SPACE == IPV4_MAPPED_PREFIX {
                    SocketAddr::V4 { ip: (ip % IPV4_SPACE) as u32, port }
                } else {
                    SocketAddr::V6 { ip, port, flowinfo: 0, scope_id: 0 }
                }
            },
        }
    }
}

/// A canonical address is its own canonical form.
pub proof fn canonical_is_idempotent(a: SocketAddr)
    ensures
        a.canonical().canonical() == a.canonical(),
{
}

/// The canonical form of an address has its port. That of an IPv4 address is
/// itself; so is that of an IPv6 address but for flow information and scope,
/// unless it stands for an IPv4 address, which is then its canonical form.
pub proof fn canonical_form_is_the_same_address(a: SocketAddr)
    ensures
        a matches SocketAddr::V4 { .. } ==> a.canonical() == a,
        a matches SocketAddr::V6 { ip, port, .. } ==> {
            let mapped = 0xffff_0000_0000 <= ip <= 0xffff_ffff_ffff;
            &&& mapped ==> a.canonical() == (SocketAddr::V4 {
                ip: (ip - 0xffff_0000_0000) as u32,
                port,
            })
            &&& !mapped ==> a.canonical() == (SocketAddr::V6 {
                ip,
                port,
                flowinfo: 0,
                scope_id: 0,
            })
        },
{
    if let SocketAddr::V6 { ip, .. } = a {
        assert(ip == ip / IPV4_SPACE * IPV4_SPACE + ip % IPV4_SPACE);
    }
}

/// How many bytes an endpoint's identity has.
pub const ENDPOINT_ID_LEN: usize = 32;

/// The identity of an endpoint: its public key.
///
/// The two halves of the key are held as numbers, least significant byte
/// first. There is no identity that is not a public key.
#[derive(Debug, Clone, Copy, PartialEq, Eq, PartialOrd, Ord, Hash, Structural)]
pub struct EndpointId {
    head: u128,
    tail: u128,
}

/// Whether 32 bytes are the encoding of a point of the curve that public keys
/// are on.
pub uninterp spec fn is_public_key(bytes: Seq<u8>) -> bool;

/// `ed25519_dalek::VerifyingKey::from_bytes`: tells whether the bytes are the
/// encoding of a public key. That depends on the bytes alone.
///
/// Identities are taken to be exactly the keys that this accepts. That other
/// parts of an endpoint draw the same line is assumed.
#[verifier::external_body]
fn check_public_key(bytes: &[u8]) -> (r: bool)
    requires
        bytes@.len() == ENDPOINT_ID_LEN,
    ensures
        r == is_public_key(bytes@),
{
    let mut key = [0u8; 32];
    key.copy_from_slice(bytes);
    ed25519_dalek::VerifyingKey::from_bytes(&key).is_ok()
}

/// The identity that bytes encode, if they are a public key.
pub open spec fn key_of(bytes: Seq<u8>) -> Option<EndpointId> {
    if bytes.len() == ENDPOINT_ID_LEN && is_public_key(bytes) {
        Some(EndpointId::of_bytes(bytes))
    } else {
        None
    }
}

impl EndpointId {
    /// The bytes of the public key.
    pub closed spec fn bytes(self) -> Seq<u8> {
        spec_u128_to_le_bytes(self.head) + spec_u128_to_le_bytes(self.tail)
    }

    /// The identity that 32 bytes stand for.
    pub closed spec fn of_bytes(bytes: Seq<u8>) -> EndpointId {
        EndpointId {
            head: spec_u128_from_le_bytes(bytes.take(16)),
            tail: spec_u128_from_le_bytes(bytes.skip(16)),
        }
    }

    /// Whether the bytes are a public key.
    pub open spec fn is_valid(self) -> bool {
        is_public_key(self.bytes())
    }

    /// Every identity is a public key.
    #[verifier::type_invariant]
    spec fn is_key(self) -> bool {
        self.is_valid()
    }

    /// Returns the bytes of the public key.
    pub fn as_bytes(&self) -> (r: Vec<u8>)
        ensures
            r@ == self.bytes(),
            self.is_valid(),
            key_of(r@) == Some(*self),
    {
        proof {
            use_type_invariant(self);
            lemma_auto_spec_u128_to_from_le_bytes();
            endpoint_id_is_its_bytes(*self, *self);
        }
        let mut r = u128_to_le_bytes(self.head);
        let mut tail = u128_to_le_bytes(self.tail);
        r.append(&mut tail);
        r
    }

    /// Takes bytes for an identity, if they encode a public key.
    pub fn from_bytes(bytes: &[u8]) -> (r: Option<EndpointId>)
        ensures
            r == key_of(bytes@),
            r matches Some(id) ==> id.bytes() == bytes@ && id.is_valid(),
    {
        if bytes.len() != ENDPOINT_ID_LEN || !check_public_key(bytes) {
            return None;
        }
        let head = slice_subrange(bytes, 0, 16);
        let tail = slice_subrange(bytes, 16, 32);
        proof {
            lemma_auto_spec_u128_to_from_le_bytes();
            assert(head@ =~= bytes@.take(16));
            assert(tail@ =~= bytes@.skip(16));
            assert(bytes@ =~= bytes@.take(16) + bytes@.skip(16));
            assert(EndpointId::of_bytes(bytes@).bytes() == bytes@);
        }
        let head: u128 = u128_from_le_bytes(head);
        let tail: u128 = u128_from_le_bytes(tail);
        Some(EndpointId { head, tail })
    }
}

/// An identity is its bytes: they lead back to it, and different identities
/// have different bytes.
pub proof fn endpoint_id_is_its_bytes(a: EndpointId, b: EndpointId)
    ensures
        EndpointId::of_bytes(a.bytes()) == a,
        a.bytes() == b.bytes() ==> a == b,
        a.bytes().len() == ENDPOINT_ID_LEN,
{
    lemma_auto_spec_u128_to_from_le_bytes();
    assert(a.bytes().take(16) =~= spec_u128_to_le_bytes(a.head));
    assert(a.bytes().skip(16) =~= spec_u128_to_le_bytes(a.tail));
    assert(b.bytes().take(16) =~= spec_u128_to_le_bytes(b.head));
    assert(b.bytes().skip(16) =~= spec_u128_to_le_bytes(b.tail));
}

} // verus!
