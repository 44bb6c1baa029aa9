//! An MQTT 3.1.1 and 5.0 broker core: the packet codec, the subscription registry, the in-flight
//! QoS 2 container, and the per-connection handler that turns events into actions.

use vstd::prelude::*;

pub mod protocol;
pub mod tools;
pub mod hex;
pub mod message;
pub mod subscript;
pub mod container;
pub mod session;
pub mod handle;
pub mod packet;
pub mod executor;

verus! {

} // verus!
