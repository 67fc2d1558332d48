use vstd::prelude::*;

verus! {

/// A JSON value, carried through the engine as an opaque payload
/// (properties, bodies, metadata).
#[verifier::external_type_specification]
#[verifier::external_body]
pub struct ExJsonValue(serde_json::Value);

} // verus!
