//! Declarations of the outside JSON types that the transport hands through.

use vstd::prelude::*;

verus! {

/// A parsed JSON document, carried through the library unopened.
#[verifier::external_type_specification]
#[verifier::external_body]
pub struct ExJsonValue(serde_json::Value);

/// The error that the JSON parser and printer report.
#[verifier::external_type_specification]
#[verifier::external_body]
pub struct ExJsonError(serde_json::Error);

/// Whether `serde_json::from_slice` reads the bytes as one JSON document;
/// its answer depends on the bytes alone.
pub uninterp spec fn json_ok(b: Seq<u8>) -> bool;

/// Relies on `serde_json::from_slice`: reads the bytes as one JSON document,
/// or reports why they are not one.
#[verifier::external_body]
pub(crate) fn parse_json(bytes: &[u8]) -> (r: Result<serde_json::Value, serde_json::Error>)
    ensures
        r is Ok <==> json_ok(bytes@),
{
    serde_json::from_slice(bytes)
}

/// Relies on `serde_json::to_string`: prints a JSON value as compact text.
/// Printing a `Value` into memory does not fail: every variant is forwarded
/// to the printer, map keys are strings, and writing into a `Vec` succeeds.
#[verifier::external_body]
pub(crate) fn print_json(v: &serde_json::Value) -> (r: Result<String, serde_json::Error>)
    ensures
        r is Ok,
{
    serde_json::to_string(v)
}

} // verus!
