//! Verified helpers for a BACnet/IP Smart Sensor built on the CAS BACnet
//! Stack: the little-endian `propertyArrays` buffers of the stack's client
//! calls, the IPv4 connection string, local subnet addressing, and the
//! command-line values.
use vstd::prelude::*;

pub mod cas_example_helper;
pub mod constants;
pub mod property_buffer_helper;
pub mod text;
pub mod wire;

verus! {
} // verus!
