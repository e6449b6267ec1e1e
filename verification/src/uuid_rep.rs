//! The 128-bit identifiers that label agents and connections, held as
//! plain values, with the outside generator behind a trusted wrapper.

use vstd::prelude::*;

verus! {

/// A 128-bit identifier; `hi` holds the first eight bytes of the
/// canonical big-endian form, `lo` the last eight.
#[derive(Debug, Clone, Copy, PartialEq, Eq, Structural)]
pub struct Uuid {
    pub hi: u64,
    pub lo: u64,
}

impl Uuid {
    pub fn new(hi: u64, lo: u64) -> (r: Uuid)
        ensures
            r == (Uuid { hi, lo }),
    {
        Uuid { hi, lo }
    }
}

/// Relies on uuid::Uuid::new_v4: a freshly drawn random identifier.
/// Nothing is promised of the value.
#[verifier::external_body]
pub fn new_v4() -> Uuid {
    let v = uuid::Uuid::new_v4().as_u128();
    Uuid { hi: (v >> 64) as u64, lo: v as u64 }
}

} // verus!
