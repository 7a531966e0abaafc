//! The JSON value type of `serde_json`, carried opaquely by library types.
use vstd::prelude::*;

verus! {

/// `serde_json::Value`, declared so that library structs can hold JSON
/// values they pass through without reading them.
#[verifier::external_type_specification]
#[verifier::external_body]
pub struct ExJsonValue(serde_json::Value);

/// `serde_json::Value::Null`, the data of a result that carries none.
/// The value is opaque here, so nothing is stated of it.
#[verifier::external_body]
pub(crate) fn json_null() -> serde_json::Value {
    serde_json::Value::Null
}

} // verus!
