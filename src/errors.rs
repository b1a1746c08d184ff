use vstd::prelude::*;

use crate::ipv4::ReservedAddress;

verus! {

/// The ways in which a network description can be rejected.
#[derive(Debug, Clone, Copy, PartialEq, Eq, Structural)]
pub enum Error {
    /// The subnet mask length lies outside `0..=32`.
    InvalidSubnetMask,
    /// The CIDR text is malformed.
    InvalidAddress,
    /// The base address lies in a reserved block.
    ReservedAddress(ReservedAddress),
}

} // verus!
