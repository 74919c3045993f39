use playwright_api::fetch::{fetch_payload, is_json_content_type, DataType, FetchPayload, FormType, JsonObject};
use serde_json::Value;

fn headers(pairs: &[(&str, Value)]) -> Option<JsonObject> {
    let mut m = JsonObject::new();
    for (k, v) in pairs {
        m.insert(k.to_string(), v.clone());
    }
    Some(m)
}

#[test]
fn json_content_type_detection() {
    assert!(!is_json_content_type(&None));
    assert!(!is_json_content_type(&headers(&[])));
    assert!(is_json_content_type(&headers(&[("content-type", Value::from("application/json"))])));
    assert!(is_json_content_type(&headers(&[(
        "content-type",
        Value::from("application/json; charset=utf-8")
    )])));
    assert!(!is_json_content_type(&headers(&[("content-type", Value::from("text/html"))])));
    assert!(!is_json_content_type(&headers(&[("Content-Type", Value::from("application/json"))])));
    assert!(!is_json_content_type(&headers(&[("content-type", Value::from(3))])));
}

fn empty_payload() -> FetchPayload {
    FetchPayload { post_data_buffer: None, json_data: None, form_data: None, multipart_data: None }
}

#[test]
fn payload_without_data_is_empty() {
    assert_eq!(fetch_payload(&None, None), empty_payload());
}

#[test]
fn raw_data_goes_to_json_or_buffer() {
    let json = headers(&[("content-type", Value::from("application/json"))]);
    let p = fetch_payload(&json, Some(DataType::Data("{}".to_string())));
    assert_eq!(p, FetchPayload { json_data: Some("{}".to_string()), ..empty_payload() });
    let p = fetch_payload(&None, Some(DataType::Data("abc".to_string())));
    assert_eq!(p, FetchPayload { post_data_buffer: Some("abc".to_string()), ..empty_payload() });
}

#[test]
fn form_and_multipart_go_to_their_slots() {
    let fields = headers(&[("a", Value::from("b"))]).unwrap();
    let p = fetch_payload(&None, Some(DataType::Form(fields.clone())));
    assert_eq!(p, FetchPayload { form_data: Some(fields.clone()), ..empty_payload() });
    let p = fetch_payload(&None, Some(DataType::Multipart(fields.clone())));
    assert_eq!(p, FetchPayload { multipart_data: Some(fields), ..empty_payload() });
}

#[test]
fn payload_fills_exactly_one_slot() {
    let json = headers(&[("content-type", Value::from("application/json"))]);
    for (h, d) in [
        (json.clone(), DataType::Data("x".to_string())),
        (None, DataType::Data("x".to_string())),
        (None, DataType::Form(JsonObject::new())),
        (json, DataType::Multipart(JsonObject::new())),
    ] {
        let p = fetch_payload(&h, Some(d));
        let filled = p.post_data_buffer.is_some() as u8
            + p.json_data.is_some() as u8
            + p.form_data.is_some() as u8
            + p.multipart_data.is_some() as u8;
        assert_eq!(filled, 1);
    }
}

#[test]
fn form_type_from_pair() {
    let f = FormType::from(("name".to_string(), "value".to_string()));
    assert_eq!(f.name, "name");
    assert_eq!(f.value, "value");
}
