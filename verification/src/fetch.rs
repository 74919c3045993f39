//! The request-context helpers: form entries, request payload kinds, and
//! where a payload goes in a fetch request.

use vstd::prelude::*;
use crate::text::{has_prefix, starts_with_text};

verus! {

#[verifier::external_type_specification]
#[verifier::external_body]
#[verifier::reject_recursive_types(K)]
#[verifier::reject_recursive_types(V)]
pub struct ExJsonMap<K, V>(serde_json::Map<K, V>);

#[verifier::external_type_specification]
#[verifier::external_body]
pub struct ExJsonValue(serde_json::Value);

/// A JSON object.
pub type JsonObject = serde_json::Map<String, serde_json::Value>;

/// What a JSON object holds, as far as this library reads it: its keys,
/// each mapped to the text of its value when that value is a JSON string
/// and to `None` otherwise.
pub uninterp spec fn json_object_texts(m: serde_json::Map<String, serde_json::Value>) -> Map<
    Seq<char>,
    Option<Seq<char>>,
>;

/// `serde_json::Map::get` for `key`, with the value found reported as its
/// text when it is a JSON string. Trusted to report a value exactly for the
/// keys the object holds, and the text of that key's string value.
#[verifier::external_body]
fn lookup_text(m: &JsonObject, key: &str) -> (r: Option<Option<String>>)
    ensures
        r.is_some() == json_object_texts(*m).dom().contains(key@),
        r matches Some(t) ==> match t {
            Some(s) => json_object_texts(*m)[key@] == Some(s@),
            None => json_object_texts(*m)[key@] is None,
        },
{
    match m.get(key) {
        Some(serde_json::Value::String(s)) => Some(Some(s.clone())),
        Some(_) => Some(None),
        None => None,
    }
}

/// The headers say the body is JSON: their `content-type` is a string that
/// begins with `application/json`.
pub open spec fn json_content_type(headers: Option<JsonObject>) -> bool {
    match headers {
        None => false,
        Some(h) => {
            &&& json_object_texts(h).dom().contains("content-type"@)
            &&& json_object_texts(h)["content-type"@] matches Some(t)
            &&& has_prefix(t, "application/json"@)
        },
    }
}

/// Whether the headers declare a JSON body.
pub fn is_json_content_type(headers: &Option<JsonObject>) -> (r: bool)
    ensures
        r == json_content_type(*headers),
{
    let headers = match headers {
        Some(headers) => headers,
        None => return false,
    };
    match lookup_text(headers, "content-type") {
        Some(Some(value)) => starts_with_text(value.as_str(), "application/json"),
        _ => false,
    }
}

/// One entry of a form: a name and its value.
#[derive(Debug, PartialEq, Eq)]
pub struct FormType {
    pub name: String,
    pub value: String,
}

impl From<(String, String)> for FormType {
    fn from(pair: (String, String)) -> (r: Self) {
        FormType { name: pair.0, value: pair.1 }
    }
}

impl vstd::std_specs::convert::FromSpecImpl<(String, String)> for FormType {
    open spec fn obeys_from_spec() -> bool {
        true
    }

    open spec fn from_spec(pair: (String, String)) -> Self {
        FormType { name: pair.0, value: pair.1 }
    }
}

/// The body of a fetch request.
#[derive(Debug, PartialEq, Eq)]
pub enum DataType {
    /// Raw data.
    Data(String),
    /// Form fields, sent URL-encoded.
    Form(JsonObject),
    /// Form fields, sent as multipart.
    Multipart(JsonObject),
}

/// Where a fetch request carries its body: at most one of these is set.
#[derive(Debug, PartialEq, Eq)]
pub struct FetchPayload {
    pub post_data_buffer: Option<String>,
    pub json_data: Option<String>,
    pub form_data: Option<JsonObject>,
    pub multipart_data: Option<JsonObject>,
}

/// Where the body `data` of a request with `headers` goes: raw data is sent
/// as JSON when the headers declare a JSON body and as a plain buffer
/// otherwise; form and multipart fields go to their own slots.
pub open spec fn fetch_payload_spec(headers: Option<JsonObject>, data: Option<DataType>) -> FetchPayload {
    let none = FetchPayload {
        post_data_buffer: None,
        json_data: None,
        form_data: None,
        multipart_data: None,
    };
    match data {
        None => none,
        Some(DataType::Data(s)) => if json_content_type(headers) {
            FetchPayload { json_data: Some(s), ..none }
        } else {
            FetchPayload { post_data_buffer: Some(s), ..none }
        },
        Some(DataType::Form(m)) => FetchPayload { form_data: Some(m), ..none },
        Some(DataType::Multipart(m)) => FetchPayload { multipart_data: Some(m), ..none },
    }
}

/// Sorts the body of a fetch request into its slot (see
/// `fetch_payload_spec`).
pub fn fetch_payload(headers: &Option<JsonObject>, data: Option<DataType>) -> (r: FetchPayload)
    ensures
        r == fetch_payload_spec(*headers, data),
{
    let mut post_data_buffer = None;
    let mut json_data = None;
    let mut form_data = None;
    let mut multipart_data = None;
    if let Some(data) = data {
        match data {
            DataType::Data(s) => {
                if is_json_content_type(headers) {
                    json_data = Some(s);
                } else {
                    post_data_buffer = Some(s);
                }
            },
            DataType::Form(m) => {
                form_data = Some(m);
            },
            DataType::Multipart(m) => {
                multipart_data = Some(m);
            },
        }
    }
    FetchPayload { post_data_buffer, json_data, form_data, multipart_data }
}

/// A request body always lands in exactly one slot, and without a body
/// every slot is empty.
pub proof fn lemma_payload_in_one_slot(headers: Option<JsonObject>, data: Option<DataType>)
    ensures
        ({
            let p = fetch_payload_spec(headers, data);
            let filled = (if p.post_data_buffer is Some {
                1int
            } else {
                0int
            }) + (if p.json_data is Some {
                1int
            } else {
                0int
            }) + (if p.form_data is Some {
                1int
            } else {
                0int
            }) + (if p.multipart_data is Some {
                1int
            } else {
                0int
            });
            filled == if data is Some {
                1int
            } else {
                0int
            }
        }),
{
}

/// Raw data goes to `json_data` exactly when the headers hold a
/// `content-type` whose value is a string beginning with
/// `application/json`, and to `post_data_buffer` otherwise, including when
/// headers are present with another content type, a non-string one, or none.
pub proof fn lemma_raw_data_slot(headers: Option<JsonObject>, s: String)
    ensures
        ({
            let p = fetch_payload_spec(headers, Some(DataType::Data(s)));
            let declared_json = match headers {
                None => false,
                Some(h) => {
                    &&& json_object_texts(h).dom().contains("content-type"@)
                    &&& json_object_texts(h)["content-type"@] matches Some(t)
                    &&& t.len() >= "application/json"@.len()
                    &&& t.subrange(0, "application/json"@.len() as int) == "application/json"@
                },
            };
            &&& p.form_data is None
            &&& p.multipart_data is None
            &&& declared_json ==> p.json_data == Some(s) && p.post_data_buffer is None
            &&& !declared_json ==> p.post_data_buffer == Some(s) && p.json_data is None
        }),
{
}

} // verus!
