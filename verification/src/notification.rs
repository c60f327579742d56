use vstd::prelude::*;
use crate::payload_trait::PayloadTrait;

verus! {

/// The decoded envelope of one received message: device identity, access
/// credential, and the typed payload. It lives only while one message is
/// being processed.
///
/// A successfully decoded envelope always carries a non-empty identifier and
/// a non-empty token; `wf` states that invariant.
pub struct Notification<T: PayloadTrait> {
    pub uuid: String,
    pub api_token: String,
    pub payload: T,
}

impl<T: PayloadTrait> Notification<T> {
    /// Well-formedness: identifier and credential are non-empty.
    pub open spec fn wf(&self) -> bool {
        self.uuid@.len() > 0 && self.api_token@.len() > 0
    }
}

} // verus!
