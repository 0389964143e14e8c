//! Decoding a document from its YAML or JSON text into a JSON value.

use vstd::prelude::*;

verus! {

/// `serde_yaml::Error`: why a text could not be decoded.
#[verifier::external_type_specification]
#[verifier::external_body]
pub struct ExYamlError(serde_yaml::Error);

/// The JSON value that `serde_yaml` decodes a text into, or `None` where
/// the text is not valid.
pub uninterp spec fn yaml_value(content: Seq<char>) -> Option<serde_json::Value>;

/// Calls `serde_yaml::from_str` for a `serde_json::Value`. What comes out
/// depends on the text alone: one text always gives the same value, or
/// always an error.
#[verifier::external_body]
pub(crate) fn decode_value(content: &str) -> (res: Result<serde_json::Value, serde_yaml::Error>)
    ensures
        match res {
            Ok(value) => yaml_value(content@) == Some(value),
            Err(_) => yaml_value(content@) is None,
        },
{
    serde_yaml::from_str::<serde_json::Value>(content)
}

} // verus!
