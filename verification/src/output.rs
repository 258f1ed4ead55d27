//! The output format: one JSON text per item, each on a line of its own.

use vstd::prelude::*;
use crate::text::push_char;

verus! {

/// The compact JSON text of `value`, or the text of the serialization
/// error (serde_json's `to_string`).
pub uninterp spec fn json_serialization(value: serde_json::Value) -> Result<Seq<char>, Seq<char>>;

/// Serializes an item as compact JSON (serde_json's `to_string`).
#[verifier::external_body]
fn serialize_item(value: &serde_json::Value) -> (r: Result<String, String>)
    ensures
        match r {
            Ok(t) => json_serialization(*value) == Ok::<Seq<char>, Seq<char>>(t@),
            Err(e) => json_serialization(*value) == Err::<Seq<char>, Seq<char>>(e@),
        },
{
    serde_json::to_string(value).map_err(|e| e.to_string())
}

/// The line written to the output file for `value`: its JSON text and a
/// newline; the serialization error when it cannot be written as JSON.
pub fn item_line(value: &serde_json::Value) -> (r: Result<String, String>)
    ensures
        match r {
            Ok(line) => json_serialization(*value) matches Ok(t) && line@ == t.push('\n'),
            Err(e) => json_serialization(*value) == Err::<Seq<char>, Seq<char>>(e@),
        },
{
    match serialize_item(value) {
        Ok(t) => {
            let mut line = t;
            push_char(&mut line, '\n');
            Ok(line)
        },
        Err(e) => Err(e),
    }
}

} // verus!
