use vstd::prelude::*;

verus! {

/// Declares serde_json::Value, the parsed form of a metadata blob, so that it
/// can be carried through signatures; it is opaque here, described only by
/// the named spec functions below.
#[verifier::external_type_specification]
#[verifier::external_body]
pub struct ExValue(serde_json::Value);

/// Declares serde_json::Error, what serde_json::from_str returns on malformed
/// text; mapped to this library's `DecodeError` right after the call.
#[verifier::external_type_specification]
#[verifier::external_body]
pub struct ExJsonError(serde_json::Error);

/// Whether `serde_json::from_str::<Value>` accepts the text: a function of the
/// text alone.
pub uninterp spec fn json_wf(s: Seq<char>) -> bool;

/// Whether the document the text parses to is a JSON object: a function of the
/// text alone, meaningful when `json_wf` holds.
pub uninterp spec fn json_is_obj(s: Seq<char>) -> bool;

/// The keys of the object the text parses to, each mapped to whether its
/// value is JSON null: a function of the text alone, meaningful when the
/// parsed document is an object.
pub uninterp spec fn json_doc(s: Seq<char>) -> Map<Seq<char>, bool>;

/// Whether a parsed value is JSON null: what `serde_json::Value::is_null`
/// returns.
pub uninterp spec fn json_null(v: serde_json::Value) -> bool;

/// Whether a parsed value is a JSON object: what `serde_json::Value::is_object`
/// returns.
pub uninterp spec fn json_object(v: serde_json::Value) -> bool;

/// The keys of a parsed object value, each mapped to whether its entry is
/// JSON null: the object contents that `serde_json::Value::get` looks up.
pub uninterp spec fn json_fields(v: serde_json::Value) -> Map<Seq<char>, bool>;

/// Relies on serde_json::from_str::<Value>: it returns Ok exactly when the
/// text is well-formed JSON, and the parsed document is a function of the
/// text alone.
#[verifier::external_body]
fn json_from_str(s: &str) -> (r: Result<serde_json::Value, serde_json::Error>)
    ensures
        r is Ok <==> json_wf(s@),
        r matches Ok(v) ==> json_object(v) == json_is_obj(s@) && json_fields(v) == json_doc(s@),
{
    serde_json::from_str::<serde_json::Value>(s)
}

/// Relies on serde_json::Value::is_object.
#[verifier::external_body]
fn value_is_object(v: &serde_json::Value) -> (r: bool)
    ensures
        r == json_object(*v),
{
    v.is_object()
}

/// Relies on serde_json::Value::get with a string key: on an object it
/// returns Some exactly when the key is present, and the entry it returns is
/// null exactly when the object maps the key to null.
#[verifier::external_body]
fn value_get<'a>(v: &'a serde_json::Value, key: &str) -> (r: Option<&'a serde_json::Value>)
    requires
        json_object(*v),
    ensures
        r is Some <==> json_fields(*v).dom().contains(key@),
        r matches Some(e) ==> json_null(*e) == json_fields(*v)[key@],
{
    v.get(key)
}

/// Relies on serde_json::Value::is_null.
#[verifier::external_body]
fn value_is_null(v: &serde_json::Value) -> (r: bool)
    ensures
        r == json_null(*v),
{
    v.is_null()
}

/// Relies on Clone for serde_json::Value: a deep copy of the same document.
#[verifier::external_body]
fn value_clone(v: &serde_json::Value) -> (r: serde_json::Value)
    ensures
        r == *v,
{
    v.clone()
}

/// Relies on the Display implementation of serde_json::Error for a readable
/// description of what went wrong.
#[verifier::external_body]
fn json_error_message(e: &serde_json::Error) -> (r: String) {
    e.to_string()
}

/// A malformed metadata blob: the per-entity, recoverable decode failure.
/// Carries a human-readable description of what went wrong.
#[derive(Debug)]
pub enum DecodeError {
    Malformed { message: String },
}

/// The key under which the asset authoring pipeline stores per-entity
/// metadata inside an entity's blob.
pub open spec fn payload_key() -> Seq<char> {
    "bbu_object_data"@
}

/// A well-formed metadata envelope: well-formed JSON whose top level is an
/// object.
pub open spec fn spec_envelope_wf(blob: Seq<char>) -> bool {
    json_wf(blob) && json_is_obj(blob)
}

/// Whether a well-formed envelope carries a payload: the recognized key is
/// present and not null.
pub open spec fn spec_payload_present(blob: Seq<char>) -> bool {
    json_doc(blob).dom().contains(payload_key()) && !json_doc(blob)[payload_key()]
}

/// What a decode of `blob` may return: an error exactly on a malformed
/// envelope, `None` exactly when the payload is absent or null, and the
/// payload value otherwise.
pub open spec fn spec_decode_result(
    blob: Seq<char>,
    r: Result<Option<serde_json::Value>, DecodeError>,
) -> bool {
    &&& r is Err <==> !spec_envelope_wf(blob)
    &&& r matches Ok(p) ==> (p is Some <==> spec_payload_present(blob))
}

/// Decode one entity's raw metadata blob into the optional payload envelope.
///
/// A malformed blob (text that is not well-formed JSON, or whose top level is
/// not an object) is a `DecodeError`. A well-formed envelope without the
/// recognized key, or with the key explicitly null, is `Ok(None)`: the valid,
/// common case of an entity without domain-specific metadata. Otherwise the
/// payload value itself is returned for the caller to interpret against its
/// own schema.
pub fn decode_payload(blob: &str) -> (r: Result<Option<serde_json::Value>, DecodeError>)
    ensures
        spec_decode_result(blob@, r),
        r is Err <==> !spec_envelope_wf(blob@),
        r matches Ok(p) ==> (p is Some <==> spec_payload_present(blob@)),
        r matches Ok(Some(p)) ==> !json_null(p),
{
    match json_from_str(blob) {
        Result::Err(e) => Result::Err(DecodeError::Malformed { message: json_error_message(&e) }),
        Result::Ok(v) => {
            if !value_is_object(&v) {
                return Result::Err(
                    DecodeError::Malformed {
                        message: String::from_str("expected a JSON object at the top level"),
                    },
                );
            }
            let key = "bbu_object_data";
            match value_get(&v, key) {
                Option::None => Result::Ok(Option::None),
                Option::Some(e) => {
                    if value_is_null(e) {
                        Result::Ok(Option::None)
                    } else {
                        Result::Ok(Option::Some(value_clone(e)))
                    }
                },
            }
        },
    }
}

} // verus!
