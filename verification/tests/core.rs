use timekv::errors::Error;
use timekv::options::{create_options_map, OptionsArray};
use timekv::parse::parse_u64;
use timekv::query::{insert_time_option, GetRequest, PostRequest};
use timekv::record::{Document, Message, Value};

fn strings(tokens: &[&str]) -> Vec<String> {
    tokens.iter().map(|t| t.to_string()).collect()
}

#[test]
fn even_sequence_decodes_with_half_the_size() {
    let tokens = strings(&["key", "sensor1", "time_gt", "5"]);
    let oa = create_options_map(&tokens).unwrap();
    assert_eq!(oa.keys.len(), 2);
    assert_eq!(oa.values.len(), 2);
    assert_eq!(oa.get("key").unwrap(), "sensor1");
    assert_eq!(oa.get("time_gt").unwrap(), "5");
}

#[test]
fn empty_sequence_decodes_to_empty_options() {
    let tokens: Vec<String> = Vec::new();
    let oa = create_options_map(&tokens).unwrap();
    assert_eq!(oa.keys.len(), 0);
}

#[test]
fn odd_sequence_is_refused_whole() {
    let tokens = strings(&["key", "sensor1", "time_gt"]);
    assert!(create_options_map(&tokens).is_none());
    let one = strings(&["key"]);
    assert!(create_options_map(&one).is_none());
}

#[test]
fn duplicate_option_lookup_returns_first_match() {
    let mut oa = OptionsArray::new();
    oa.insert("key", "first");
    oa.insert("key", "second");
    assert_eq!(oa.get("key").unwrap(), "first");
    assert!(oa.contains_key("key"));
    assert!(!oa.contains_key("value"));
    assert!(oa.get("value").is_none());
}

#[test]
fn parse_u64_accepts_digits_only() {
    assert_eq!(parse_u64("0"), Some(0));
    assert_eq!(parse_u64("42"), Some(42));
    assert_eq!(parse_u64("18446744073709551615"), Some(u64::MAX));
    assert_eq!(parse_u64("18446744073709551616"), None);
    assert_eq!(parse_u64(""), None);
    assert_eq!(parse_u64("+5"), None);
    assert_eq!(parse_u64("-5"), None);
    assert_eq!(parse_u64("abc"), None);
    assert_eq!(parse_u64("12a"), None);
}

#[test]
fn time_option_absent_is_not_an_error() {
    let mut oa = OptionsArray::new();
    oa.insert("key", "a");
    assert_eq!(insert_time_option("time_gt", &oa), Ok(None));
}

#[test]
fn time_option_invalid_value_is_an_error() {
    let mut oa = OptionsArray::new();
    oa.insert("time_gt", "abc");
    assert_eq!(insert_time_option("time_gt", &oa), Err(Error::InvalidTimeValue));
}

#[test]
fn get_request_requires_key() {
    let mut oa = OptionsArray::new();
    oa.insert("time_gt", "5");
    let r = GetRequest::from_options(&oa);
    assert_eq!(r.err().unwrap(), Error::MissingRequiredField("key".to_string()));
}

#[test]
fn get_request_carries_parsed_bounds() {
    let mut oa = OptionsArray::new();
    oa.insert("key", "a");
    oa.insert("time_gt", "10");
    let q = GetRequest::from_options(&oa).ok().unwrap();
    assert_eq!(q.key, "a");
    assert_eq!(q.time_gt, Some(10));
    assert_eq!(q.time_lt, None);
}

#[test]
fn post_request_requires_key_and_value() {
    let mut only_value = OptionsArray::new();
    only_value.insert("value", "42");
    let r = PostRequest::from_options(&only_value, 7);
    assert_eq!(r.err().unwrap(), Error::MissingRequiredField("key".to_string()));

    let mut only_key = OptionsArray::new();
    only_key.insert("key", "sensor1");
    let r = PostRequest::from_options(&only_key, 7);
    assert_eq!(r.err().unwrap(), Error::MissingRequiredField("value".to_string()));
}

#[test]
fn post_request_ignores_client_time_option() {
    let mut oa = OptionsArray::new();
    oa.insert("key", "sensor1");
    oa.insert("value", "42");
    oa.insert("time", "999");
    let p = PostRequest::from_options(&oa, 7).ok().unwrap();
    assert_eq!(p.time, 7);
    let m = p.to_message();
    assert_eq!(m.key, "sensor1");
    assert_eq!(m.value, "42");
    assert_eq!(m.time, 7);
}

#[test]
fn record_round_trips_through_storage_form() {
    let m = Message { key: "sensor1".to_string(), value: "42".to_string(), time: 1234567 };
    let d = m.to_document();
    let back = d.to_message().ok().unwrap();
    assert_eq!(back.key, "sensor1");
    assert_eq!(back.value, "42");
    assert_eq!(back.time, 1234567);
}

#[test]
fn document_accessors_check_field_shape() {
    let mut d = Document::new();
    d.insert("key", Value::Text("a".to_string()));
    d.insert("time", Value::Num(10));
    d.insert("note", Value::Text("not a number".to_string()));
    assert_eq!(d.get_str("key").unwrap(), "a");
    assert_eq!(d.get_u64("time"), Some(10));
    assert!(d.get_str("time").is_none());
    assert!(d.get_u64("note").is_none());
    assert!(d.get_u64("missing").is_none());
    assert!(d.get_str("missing").is_none());
}

#[test]
fn incomplete_document_is_undecodable() {
    let mut d = Document::new();
    d.insert("time", Value::Num(10));
    d.insert("key", Value::Text("a".to_string()));
    assert_eq!(d.to_message().err().unwrap(), Error::StorageFailure);
}

#[test]
fn to_query_adds_time_clause_only_when_bounded() {
    let none = GetRequest { key: "a".to_string(), time_gt: None, time_lt: None };
    assert!(none.to_query().time.is_none());

    let gt = GetRequest { key: "a".to_string(), time_gt: Some(10), time_lt: None };
    let f = gt.to_query();
    assert_eq!(f.key, "a");
    let tf = f.time.unwrap();
    assert_eq!(tf.gt, Some(10));
    assert_eq!(tf.lt, None);

    let both = GetRequest { key: "a".to_string(), time_gt: Some(10), time_lt: Some(30) };
    let tf = both.to_query().time.unwrap();
    assert_eq!(tf.gt, Some(10));
    assert_eq!(tf.lt, Some(30));
}
