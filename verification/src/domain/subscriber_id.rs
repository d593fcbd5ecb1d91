//! The identifier of a subscription.

use vstd::prelude::*;

verus! {

/// Whether `v` has the version and variant bits of a random UUID.
pub open spec fn is_random_uuid(v: u128) -> bool {
    v & 0x0000_0000_0000_f000_c000_0000_0000_0000u128
        == 0x0000_0000_0000_4000_8000_0000_0000_0000u128
}

/// Draws a random UUID with `Uuid::new_v4` and hands out its 128 bits as
/// `Uuid::as_u128` packs them. Whatever is drawn, the version bits say 4 and
/// the variant bits say RFC 4122.
#[verifier::external_body]
fn random_uuid() -> (v: u128)
    ensures
        is_random_uuid(v),
{
    uuid::Uuid::new_v4().as_u128()
}

/// The identifier of a subscription: the 128 bits of a UUID.
#[derive(Clone, Copy, Debug, PartialEq, Eq, Structural)]
pub struct SubscriberId(pub u128);

impl SubscriberId {
    /// A fresh random identifier.
    pub fn generate() -> (id: SubscriberId)
        ensures
            is_random_uuid(id.0),
    {
        SubscriberId(random_uuid())
    }
}

} // verus!
