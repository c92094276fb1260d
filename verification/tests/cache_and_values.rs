use boba::cache::{BobaCache, CacheId, CacheSpan};
use boba::engine::value::Value;
use boba::num::BigInt;

#[test]
fn cache_id_packs_cache_number_and_index() {
    let id = CacheId::build(7, 42);
    assert_eq!(id.cache_id(), 7);
    assert_eq!(id.uindex(), 42);
}

#[test]
fn cache_stores_and_serves_buffers() {
    let mut cache = BobaCache::with_id(3);
    let id = cache.store("label one".to_string(), "let x = 1".to_string());
    let data = cache.load(id).expect("just stored");
    assert_eq!(data.label(), "label one");
    assert_eq!(data.text(), "let x = 1");
    assert_eq!(data.id(), id);
}

#[test]
fn cache_rejects_foreign_and_stale_ids() {
    let mut first = BobaCache::with_id(1);
    let second = BobaCache::with_id(2);
    let id = first.store("a".to_string(), "b".to_string());
    assert!(second.load(id).is_none());
    assert!(first.load(CacheId::build(1, 5)).is_none());
}

#[test]
fn cache_data_builds_spans_into_its_own_buffer() {
    let mut cache = BobaCache::new();
    let id = cache.store("src".to_string(), "abcdef".to_string());
    let data = cache.load(id).unwrap();
    let span = data.span(2..4);
    assert_eq!(span.id(), id);
    assert_eq!(span.range(), 2..4);
}

#[test]
fn cache_span_carries_its_range() {
    let span = CacheSpan::new(CacheId(0), 3..9);
    assert_eq!(span.start(), 3);
    assert_eq!(span.end(), 9);
    assert_eq!(span.range(), 3..9);
}

#[test]
fn type_labels_are_the_five_names() {
    assert_eq!(Value::Nil.type_label(), "none");
    assert_eq!(Value::Bool(true).type_label(), "bool");
    assert_eq!(
        Value::Int(BigInt {
            negative: false,
            mag: vec![1]
        })
        .type_label(),
        "int"
    );
    assert_eq!(Value::String("x".to_string()).type_label(), "string");
}

#[test]
fn display_texts_are_canonical() {
    assert_eq!(Value::Nil.to_display(), "none");
    assert_eq!(Value::Bool(false).to_display(), "false");
    assert_eq!(
        Value::Int(BigInt {
            negative: true,
            mag: vec![0x39, 0x30]
        })
        .to_display(),
        "-12345"
    );
    assert_eq!(Value::String("hi".to_string()).to_display(), "hi");
}

#[test]
fn big_integers_do_not_overflow() {
    // 2^64 stays exact: mag is little-endian base-256
    let mut mag = vec![0u8; 8];
    mag.push(1);
    let v = Value::Int(BigInt {
        negative: false,
        mag,
    });
    assert_eq!(v.to_display(), "18446744073709551616");
}
