//! Identifiers for the replies that a node sends.

use vstd::prelude::*;

verus! {

/// `Uuid::new_v4` of the uuid crate, written out by its `to_string`: a random
/// identifier in text form. Nothing is claimed of the text, which differs
/// from call to call. The crate gives up only where the system has no random
/// bytes to give.
#[verifier::external_body]
pub(crate) fn fresh_uuid() -> (r: String) {
    uuid::Uuid::new_v4().to_string()
}

} // verus!
