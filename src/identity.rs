use vstd::prelude::*;

verus! {

/// An account's immutable unique key: the 128 bits of a UUID.
#[derive(Debug, Clone, Copy, PartialEq, Eq, Structural, Hash)]
pub struct Identity {
    pub value: u128,
}

/// Relies on `uuid::Uuid::new_v4`, read back by `Uuid::as_u128`: a random
/// (version 4) UUID; nothing is known of its bits.
#[verifier::external_body]
fn random_uuid_bits() -> u128 {
    uuid::Uuid::new_v4().as_u128()
}

impl Identity {
    /// Mints a fresh identity from the random source.
    pub fn mint() -> (r: Identity) {
        Identity { value: random_uuid_bits() }
    }
}

} // verus!
