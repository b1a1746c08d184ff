//! IPv4 subnet arithmetic: network classes, reserved blocks, subnet and host counts,
//! and the enumeration of every address of a network with its role.
use vstd::prelude::*;

pub mod cidr;
pub mod errors;
pub mod ipv4;
pub mod render;

verus! {

} // verus!
