use vstd::prelude::*;

verus! {

/// Relies on uuid::Uuid::new_v4 and its `Display`: a random version-4 id,
/// written in the 36-character hyphenated form.
#[verifier::external_body]
pub(crate) fn random_order_id() -> (r: String)
    ensures
        r@.len() == 36,
{
    uuid::Uuid::new_v4().to_string()
}

} // verus!
