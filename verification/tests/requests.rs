use timekv::errors::Error;
use timekv::record::{Document, Message, Value};
use timekv::store::{get, get_time, post, Store};

fn strings(tokens: &[&str]) -> Vec<String> {
    tokens.iter().map(|t| t.to_string()).collect()
}

fn store_with_times(key: &str, times: &[u64]) -> Store {
    let mut store = Store::new();
    for (i, t) in times.iter().enumerate() {
        let m = Message { key: key.to_string(), value: format!("v{}", i), time: *t };
        m.to_document().insert_into(&mut store);
    }
    store
}

#[test]
fn strict_bounds_exclude_both_endpoints() {
    let store = store_with_times("A", &[10, 20, 30]);
    let tokens = strings(&["key", "A", "time_gt", "10", "time_lt", "30"]);
    let ms = get(&store, &tokens).ok().unwrap();
    assert_eq!(ms.len(), 1);
    assert_eq!(ms[0].time, 20);
    assert_eq!(ms[0].key, "A");
}

#[test]
fn lower_bound_alone_is_exclusive() {
    let store = store_with_times("A", &[10, 20, 30]);
    let tokens = strings(&["key", "A", "time_gt", "10"]);
    let ms = get(&store, &tokens).ok().unwrap();
    let times: Vec<u64> = ms.iter().map(|m| m.time).collect();
    assert_eq!(times, vec![20, 30]);
}

#[test]
fn upper_bound_alone_is_exclusive() {
    let store = store_with_times("A", &[10, 20, 30]);
    let tokens = strings(&["key", "A", "time_lt", "30"]);
    let ms = get(&store, &tokens).ok().unwrap();
    let times: Vec<u64> = ms.iter().map(|m| m.time).collect();
    assert_eq!(times, vec![10, 20]);
}

#[test]
fn unbounded_query_filters_by_key_only() {
    let mut store = store_with_times("A", &[10, 20]);
    let m = Message { key: "B".to_string(), value: "x".to_string(), time: 15 };
    m.to_document().insert_into(&mut store);
    let ms = get(&store, &strings(&["key", "A"])).ok().unwrap();
    assert_eq!(ms.len(), 2);
    let ms = get(&store, &strings(&["key", "B"])).ok().unwrap();
    assert_eq!(ms.len(), 1);
    assert_eq!(ms[0].value, "x");
    let ms = get(&store, &strings(&["key", "C"])).ok().unwrap();
    assert!(ms.is_empty());
}

#[test]
fn missing_key_option_fails_retrieval() {
    let store = Store::new();
    let r = get(&store, &strings(&["time_gt", "5"]));
    assert_eq!(r.err().unwrap(), Error::MissingRequiredField("key".to_string()));
}

#[test]
fn invalid_time_value_fails_not_silently_unbounded() {
    let store = store_with_times("sensor1", &[10, 20, 30]);
    let r = get(&store, &strings(&["key", "sensor1", "time_gt", "abc"]));
    assert_eq!(r.err().unwrap(), Error::InvalidTimeValue);
}

#[test]
fn odd_tokens_fail_both_endpoints() {
    let mut store = Store::new();
    let tokens = strings(&["key", "sensor1", "value"]);
    assert_eq!(post(&mut store, &tokens).err().unwrap(), Error::MalformedOptions);
    assert_eq!(get(&store, &tokens).err().unwrap(), Error::MalformedOptions);
}

#[test]
fn post_requires_key_and_value() {
    let mut store = Store::new();
    let r = post(&mut store, &strings(&["value", "42"]));
    assert_eq!(r.err().unwrap(), Error::MissingRequiredField("key".to_string()));
    let r = post(&mut store, &strings(&["key", "sensor1"]));
    assert_eq!(r.err().unwrap(), Error::MissingRequiredField("value".to_string()));
    // Nothing was stored by the failed attempts.
    let ms = get(&store, &strings(&["key", "sensor1"])).ok().unwrap();
    assert!(ms.is_empty());
}

#[test]
fn post_then_get_returns_the_new_record() {
    let mut store = Store::new();
    let before = get_time();
    post(&mut store, &strings(&["key", "sensor1", "value", "42"])).unwrap();
    let after = get_time();
    let ms = get(&store, &strings(&["key", "sensor1"])).ok().unwrap();
    assert_eq!(ms.len(), 1);
    assert_eq!(ms[0].key, "sensor1");
    assert_eq!(ms[0].value, "42");
    assert!(before <= ms[0].time && ms[0].time <= after);
}

#[test]
fn identical_posts_store_two_records() {
    let mut store = Store::new();
    let tokens = strings(&["key", "sensor1", "value", "42"]);
    post(&mut store, &tokens).unwrap();
    post(&mut store, &tokens).unwrap();
    let ms = get(&store, &strings(&["key", "sensor1"])).ok().unwrap();
    assert_eq!(ms.len(), 2);
    for m in &ms {
        assert_eq!(m.key, "sensor1");
        assert_eq!(m.value, "42");
    }
}

#[test]
fn undecodable_matching_record_aborts_the_whole_retrieval() {
    let mut store = Store::new();
    let m = Message { key: "A".to_string(), value: "good".to_string(), time: 10 };
    m.to_document().insert_into(&mut store);
    // A corrupt document under the same key: no `value` field.
    let mut corrupt = Document::new();
    corrupt.insert("time", Value::Num(20));
    corrupt.insert("key", Value::Text("A".to_string()));
    corrupt.insert_into(&mut store);
    let r = get(&store, &strings(&["key", "A"]));
    assert_eq!(r.err().unwrap(), Error::StorageFailure);
}

#[test]
fn corrupt_record_under_other_key_does_not_hurt() {
    let mut store = Store::new();
    let mut corrupt = Document::new();
    corrupt.insert("key", Value::Text("B".to_string()));
    corrupt.insert_into(&mut store);
    let m = Message { key: "A".to_string(), value: "good".to_string(), time: 10 };
    m.to_document().insert_into(&mut store);
    let ms = get(&store, &strings(&["key", "A"])).ok().unwrap();
    assert_eq!(ms.len(), 1);
    assert_eq!(ms[0].value, "good");
}

#[test]
fn textual_time_field_never_satisfies_a_bound() {
    let mut store = Store::new();
    let mut odd_doc = Document::new();
    odd_doc.insert("time", Value::Text("20".to_string()));
    odd_doc.insert("key", Value::Text("A".to_string()));
    odd_doc.insert("value", Value::Text("x".to_string()));
    odd_doc.insert_into(&mut store);
    let ms = get(&store, &strings(&["key", "A", "time_gt", "5"])).ok().unwrap();
    assert!(ms.is_empty());
}
