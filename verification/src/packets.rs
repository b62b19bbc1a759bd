//! The packet capability: every concrete packet type is decodable and
//! carries a stable protocol-assigned numeric id, constant per type.

use vstd::prelude::*;
use crate::de::Deserialize;

verus! {

/// A concrete packet type: decodable, with its protocol-assigned id.
pub trait Packet: Deserialize {
    /// The packet's wire id within its family.
    spec fn spec_id() -> int;

    fn id() -> (r: i32)
        ensures
            r as int == Self::spec_id(),
    ;
}

} // verus!
