//! The tag set attached to a measurement: ordered key/value pairs of
//! text, filled by the per-probe decoders.

use vstd::prelude::*;

verus! {

pub type Tags = Vec<(String, String)>;

} // verus!
