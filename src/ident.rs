use vstd::prelude::*;
use crate::text::valid_identifier;

verus! {

/// Relies on `uuid::Uuid::new_v4` for a random version-4 UUID, and on the
/// `Display` of `Uuid`, which writes it through `Hyphenated::encode_lower`:
/// 32 lower-case hex digits in groups of 8, 4, 4, 4 and 12, joined by dashes.
#[verifier::external_body]
pub(crate) fn fresh_identifier() -> (r: String)
    ensures
        valid_identifier(r@),
{
    uuid::Uuid::new_v4().to_string()
}

} // verus!
