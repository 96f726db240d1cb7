//! Finding the locally bound address that lies inside an assigned subnet.

use std::str::FromStr;
use vstd::prelude::*;

verus! {

/// An IP address held as its numeric value.
#[derive(Clone, Copy, Debug, PartialEq, Eq, Structural)]
pub enum IpAddress {
    V4(u32),
    V6(u128),
}

/// An IP network: an address and the length of its routing prefix.
#[derive(Clone, Copy, Debug, PartialEq, Eq, Structural)]
pub struct Subnet {
    pub network: IpAddress,
    pub prefix: u8,
}

impl Subnet {
    /// Number of bits in an address of the subnet's family.
    pub open spec fn width(self) -> nat {
        match self.network {
            IpAddress::V4(_) => 32,
            IpAddress::V6(_) => 128,
        }
    }

    /// A valid CIDR: the prefix is no longer than the address.
    pub open spec fn wf(self) -> bool {
        self.prefix <= self.width()
    }

    /// `a` is of the subnet's family and agrees with the network address on
    /// the leading `prefix` bits.
    pub open spec fn holds(self, a: IpAddress) -> bool {
        match (self.network, a) {
            (IpAddress::V4(n), IpAddress::V4(x)) => self.prefix == 0 || (n >> (32 - self.prefix)
                as u32) == (x >> (32 - self.prefix) as u32),
            (IpAddress::V6(n), IpAddress::V6(x)) => self.prefix == 0 || (n >> (128
                - self.prefix) as u128) == (x >> (128 - self.prefix) as u128),
            _ => false,
        }
    }

    /// Whether the subnet contains `a`.
    pub fn contains(&self, a: IpAddress) -> (r: bool)
        requires
            self.wf(),
        ensures
            r == self.holds(a),
    {
        match (self.network, a) {
            (IpAddress::V4(n), IpAddress::V4(x)) => {
                if self.prefix == 0 {
                    true
                } else {
                    let s: u32 = 32 - self.prefix as u32;
                    (n >> s) == (x >> s)
                }
            },
            (IpAddress::V6(n), IpAddress::V6(x)) => {
                if self.prefix == 0 {
                    true
                } else {
                    let s: u128 = 128 - self.prefix as u128;
                    (n >> s) == (x >> s)
                }
            },
            _ => false,
        }
    }
}

/// `i` is the position of the first candidate that the subnet contains.
pub open spec fn is_first_match(subnet: Subnet, candidates: Seq<IpAddress>, i: int) -> bool {
    &&& 0 <= i < candidates.len()
    &&& subnet.holds(candidates[i])
    &&& forall|j: int| 0 <= j < i ==> !subnet.holds(#[trigger] candidates[j])
}

/// Picks the address to bind to among the locally bound `candidates`: the
/// first one, in the order given, that lies inside `subnet`, or `None` when
/// none does. The result is never an address outside the subnet.
pub fn discover_address(subnet: &Subnet, candidates: &Vec<IpAddress>) -> (r: Option<IpAddress>)
    requires
        subnet.wf(),
    ensures
        match r {
            Some(a) => exists|i: int|
                is_first_match(*subnet, candidates@, i) && #[trigger] candidates@[i] == a,
            None => forall|i: int|
                0 <= i < candidates@.len() ==> !subnet.holds(#[trigger] candidates@[i]),
        },
{
    let mut i: usize = 0;
    while i < candidates.len()
        invariant
            subnet.wf(),
            i <= candidates@.len(),
            forall|j: int| 0 <= j < i ==> !subnet.holds(#[trigger] candidates@[j]),
        decreases candidates@.len() - i,
    {
        if subnet.contains(candidates[i]) {
            assert(is_first_match(*subnet, candidates@, i as int));
            return Some(candidates[i]);
        }
        i = i + 1;
    }
    None
}

/// The subnet that a CIDR text denotes, or `None` where the text is not a
/// valid CIDR.
pub uninterp spec fn cidr_of(text: Seq<char>) -> Option<Subnet>;

/// Relies on `ipnetwork::IpNetwork::from_str` (re-exported by pnet): its
/// result depends on the text alone, and it accepts only a prefix no longer
/// than the address it follows.
#[verifier::external_body]
fn parse_subnet(text: &str) -> (r: Option<Subnet>)
    ensures
        r == cidr_of(text@),
        r matches Some(s) ==> s.wf(),
{
    match pnet::ipnetwork::IpNetwork::from_str(text) {
        Ok(pnet::ipnetwork::IpNetwork::V4(n)) => Some(
            Subnet { network: IpAddress::V4(u32::from(n.ip())), prefix: n.prefix() },
        ),
        Ok(pnet::ipnetwork::IpNetwork::V6(n)) => Some(
            Subnet { network: IpAddress::V6(u128::from(n.ip())), prefix: n.prefix() },
        ),
        Err(_) => None,
    }
}

/// Why no address to bind to could be chosen.
#[derive(Clone, Copy, Debug, PartialEq, Eq, Structural)]
pub enum ResolveError {
    /// The subnet text is not a valid CIDR.
    InvalidSubnet,
    /// No candidate lies inside the subnet.
    NotFound,
}

/// Parses `subnet_text` as a CIDR and picks, as `discover_address` does, the
/// address among `candidates` to bind to. Fails with `InvalidSubnet` exactly
/// when the text is not a valid CIDR, and with `NotFound` exactly when no
/// candidate lies inside the subnet it denotes.
pub fn resolve_bind_address(subnet_text: &str, candidates: &Vec<IpAddress>) -> (r: Result<
    IpAddress,
    ResolveError,
>)
    ensures
        match cidr_of(subnet_text@) {
            None => r == Err::<IpAddress, ResolveError>(ResolveError::InvalidSubnet),
            Some(s) => match r {
                Ok(a) => exists|i: int| #[trigger]
                    is_first_match(s, candidates@, i) && candidates@[i] == a,
                Err(e) => e == ResolveError::NotFound && forall|i: int|
                    0 <= i < candidates@.len() ==> !s.holds(#[trigger] candidates@[i]),
            },
        },
{
    match parse_subnet(subnet_text) {
        None => Err(ResolveError::InvalidSubnet),
        Some(subnet) => match discover_address(&subnet, candidates) {
            Some(a) => Ok(a),
            None => Err(ResolveError::NotFound),
        },
    }
}

} // verus!
