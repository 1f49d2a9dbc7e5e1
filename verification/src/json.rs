use serde_json::Error as SerdeJsonError;
use vstd::prelude::*;

verus! {

/// Makes `serde_json::Error` known to Verus as an opaque type, so that the
/// library's error can carry it; nothing is assumed about its contents.
#[verifier::external_type_specification]
#[verifier::external_body]
pub struct ExSerdeJsonError(SerdeJsonError);

/// What serde_json makes of a JSON text: `None` when the text does not
/// parse as a JSON value, otherwise the text serde_json prints for the
/// parsed value.
pub uninterp spec fn json_reformat(text: Seq<char>) -> Option<Seq<char>>;

/// Parses `text` with `serde_json::from_str` into a `serde_json::Value` and
/// prints that value back with its `Display` impl. Trusted: the result is
/// `json_reformat` of the text, `Ok` exactly when it is `Some`.
#[verifier::external_body]
pub(crate) fn reformat_json(text: &str) -> (r: std::result::Result<String, SerdeJsonError>)
    ensures
        match r {
            Ok(s) => json_reformat(text@) == Some(s@),
            Err(_) => json_reformat(text@) is None,
        },
{
    match serde_json::from_str::<serde_json::Value>(text) {
        Ok(value) => Ok(value.to_string()),
        Err(e) => Err(e),
    }
}

} // verus!
