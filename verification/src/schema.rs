//! Checking configuration values against their JSON Schema, through the
//! `jsonschema` crate.

use vstd::prelude::*;
use vstd::string::StringExecFns;

use crate::json::{Json, JsonValue};
use crate::text::join2;

verus! {

/// What `jsonschema` makes of a value and a schema: nothing when the schema
/// does not compile, otherwise whether the value satisfies it.
pub uninterp spec fn schema_validity(value: Json, schema: Json) -> Option<bool>;

/// The `serde_json` value of a JSON value, member for member (a number
/// whose text `serde_json` cannot read becomes `null`; the numbers held
/// here are `serde_json`'s own text or plain decimal digits).
#[verifier::external_body]
pub(crate) fn serde_value(v: &JsonValue) -> serde_json::Value {
    match v {
        JsonValue::Null => serde_json::Value::Null,
        JsonValue::Bool(b) => serde_json::Value::Bool(*b),
        JsonValue::Number(t) => t.parse::<serde_json::Number>().map_or(serde_json::Value::Null, serde_json::Value::Number),
        JsonValue::Str(s) => serde_json::Value::String(s.clone()),
        JsonValue::Array(items) => serde_json::Value::Array(items.iter().map(serde_value).collect()),
        JsonValue::Object(ms) => serde_json::Value::Object(ms.iter().map(|(k, x)| (k.clone(), serde_value(x))).collect()),
    }
}

/// `jsonschema::Validator::new(schema)`, then `iter_errors(value)` with each
/// error's text: the compiler's error text when the schema does not compile,
/// otherwise the errors, none exactly when the value satisfies the schema.
/// Which errors are listed, in what order and with what text is the
/// crate's own and is not restated here.
#[verifier::external_body]
fn schema_errors(value: &JsonValue, schema: &JsonValue) -> (r: Result<Vec<String>, String>)
    ensures
        match schema_validity(value.model(), schema.model()) {
            None => r is Err,
            Some(valid) => r matches Ok(errors) && (errors@.len() == 0 <==> valid),
        },
{
    let (value, schema) = (serde_value(value), serde_value(schema));
    match jsonschema::Validator::new(&schema) {
        Ok(validator) => Ok(validator.iter_errors(&value).map(|e| e.to_string()).collect()),
        Err(err) => Err(err.to_string()),
    }
}

/// Validate `value` against `schema`: nothing when it satisfies it,
/// otherwise the reasons — the validation errors, or the one line
/// `invalid JSON Schema: ...` when the schema itself does not compile.
pub fn validate_against_schema(value: &JsonValue, schema: &JsonValue) -> (r: Result<(), Vec<String>>)
    ensures
        schema_validity(value.model(), schema.model()) == Some(true) ==> r is Ok,
        schema_validity(value.model(), schema.model()) == Some(false) ==> (r matches Err(errors)
            && errors@.len() > 0),
        schema_validity(value.model(), schema.model()) is None ==> (r matches Err(errors) && errors@.len() == 1
            && errors@[0]@.len() >= 21 && errors@[0]@.subrange(0, 21) == "invalid JSON Schema: "@),
{
    match schema_errors(value, schema) {
        Ok(errors) => {
            if errors.len() == 0 {
                Ok(())
            } else {
                Err(errors)
            }
        },
        Err(reason) => {
            let line = join2("invalid JSON Schema: ", reason.as_str());
            proof {
                reveal_strlit("invalid JSON Schema: ");
                assert(line@.subrange(0, 21) =~= "invalid JSON Schema: "@);
            }
            let mut errors: Vec<String> = Vec::new();
            errors.push(line);
            Err(errors)
        },
    }
}

} // verus!
