//! Fresh ids for new items, states and assets.

use vstd::prelude::*;

verus! {

/// The bits of a UUID that hold its version and variant.
pub const UUID_VERSION_MASK: u128 = 0xF000_C000_0000_0000_0000u128;

/// The version and variant bits of a random (version 4, RFC 4122) UUID.
pub const UUID_V4_BITS: u128 = 0x4000_8000_0000_0000_0000u128;

/// Calls `uuid::Uuid::new_v4` and gives the UUID as its 128-bit number
/// (`Uuid::as_u128`). The contract claims only what the crate's source
/// shows of every outcome: the random bits are masked so that the version
/// is 4 and the variant is RFC 4122. Which random number comes back is
/// left unsaid. The crate panics when the system's random source fails,
/// which no argument can rule out.
#[verifier::external_body]
pub(crate) fn new_uuid() -> (id: u128)
    ensures
        id & UUID_VERSION_MASK == UUID_V4_BITS,
{
    uuid::Uuid::new_v4().as_u128()
}

/// A fresh id is never the nil id, so a new state or asset never stands
/// for the template row, which `GraphicStateSelection` marks with the nil
/// id.
pub proof fn law_fresh_id_is_not_nil(id: u128)
    requires
        id & UUID_VERSION_MASK == UUID_V4_BITS,
    ensures
        id != 0,
{
    assert(id & 0xF000_C000_0000_0000_0000u128 == 0x4000_8000_0000_0000_0000u128 ==> id != 0)
        by (bit_vector);
}

} // verus!
