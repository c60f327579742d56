use vstd::prelude::*;

verus! {

/// The payload carried by an online notification. The current deployment
/// attaches no extra data to an online event, so the payload has no fields;
/// on the wire it is an object whose members are ignored.
#[derive(Debug, Clone, Copy, PartialEq, Eq, Structural)]
pub struct OnlineMqttPayload {
}

/// Capability marker for types that may ride as a notification payload.
pub trait PayloadTrait {
}

impl PayloadTrait for OnlineMqttPayload {
}

} // verus!
