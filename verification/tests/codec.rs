use various_micro_services::codec::{decode, encode};
use various_micro_services::document::Document;

fn text(s: &str) -> Document {
    Document::Text(s.to_string())
}

fn object(fields: Vec<(&str, Document)>) -> Document {
    Document::Object(fields.into_iter().map(|(name, value)| (name.to_string(), value)).collect())
}

fn field<'a>(doc: &'a Document, name: &str) -> Option<&'a Document> {
    doc.get(&name.to_string())
}

#[test]
fn encode_writes_cbor() {
    assert_eq!(encode(&Document::Null), Some(vec![0xf6]));
    assert_eq!(encode(&Document::Bool(true)), Some(vec![0xf5]));
    assert_eq!(encode(&Document::Integer(10)), Some(vec![0x0a]));
    assert_eq!(encode(&Document::Integer(-1)), Some(vec![0x20]));
    assert_eq!(encode(&Document::Integer(500)), Some(vec![0x19, 0x01, 0xf4]));
    assert_eq!(encode(&text("a")), Some(vec![0x61, b'a']));
    assert_eq!(encode(&Document::Array(vec![Document::Integer(1), text("a")])), Some(vec![0x82, 0x01, 0x61, b'a']));
    assert_eq!(encode(&object(vec![("a", Document::Integer(1))])), Some(vec![0xa1, 0x61, b'a', 0x01]));
}

#[test]
fn encode_takes_the_last_occurrence_of_a_name() {
    let doc = object(vec![("a", Document::Integer(1)), ("a", Document::Integer(2))]);
    assert_eq!(encode(&doc), Some(vec![0xa1, 0x61, b'a', 0x02]));
}

#[test]
fn encode_does_not_depend_on_the_order_of_the_fields() {
    let one = object(vec![("bb", Document::Integer(1)), ("a", text("x"))]);
    let other = object(vec![("a", text("x")), ("bb", Document::Integer(1))]);
    assert_eq!(encode(&one), encode(&other));
}

#[test]
fn decode_reads_cbor() {
    assert!(decode(&[0xf6]).unwrap().is_null());
    assert_eq!(decode(&[0x0a]).unwrap().as_integer(), Some(10));
    assert_eq!(decode(&[0x38, 0x63]).unwrap().as_integer(), Some(-100));
    assert_eq!(decode(&[0x61, b'a']).unwrap().as_text(), Some(&"a".to_string()));
    let doc = decode(&[0xa2, 0x61, b'a', 0x01, 0x61, b'b', 0x82, 0x02, 0xf4]).unwrap();
    assert_eq!(field(&doc, "a").and_then(|d| d.as_integer()), Some(1));
    match field(&doc, "b") {
        Some(Document::Array(items)) => {
            assert_eq!(items.len(), 2);
            assert_eq!(items[0].as_integer(), Some(2));
            assert!(matches!(items[1], Document::Bool(false)));
        }
        other => panic!("no array: {:?}", other),
    }
}

#[test]
fn decode_refuses_what_is_no_document() {
    assert!(decode(&[]).is_none());
    assert!(decode(&[0xff]).is_none());
    assert!(decode(&[0x61]).is_none());
    // Two values in a row.
    assert!(decode(&[0x01, 0x02]).is_none());
    // The float 1.5, and a byte string.
    assert!(decode(&[0xf9, 0x3e, 0x00]).is_none());
    assert!(decode(&[0x41, 0x00]).is_none());
    // A map with a number as a key.
    assert!(decode(&[0xa1, 0x01, 0x02]).is_none());
    // The whole numbers next to the 64 bits with sign.
    assert!(decode(&[0x1b, 0x80, 0, 0, 0, 0, 0, 0, 0]).is_none());
    assert_eq!(decode(&[0x1b, 0x7f, 0xff, 0xff, 0xff, 0xff, 0xff, 0xff, 0xff]).unwrap().as_integer(), Some(i64::MAX));
    assert_eq!(decode(&[0x3b, 0x7f, 0xff, 0xff, 0xff, 0xff, 0xff, 0xff, 0xff]).unwrap().as_integer(), Some(i64::MIN));
    assert!(decode(&[0x3b, 0x80, 0, 0, 0, 0, 0, 0, 0]).is_none());
}

#[test]
fn decode_reads_back_what_encode_wrote() {
    let doc = object(vec![
        ("key", text("5")),
        ("n", Document::Integer(i64::MIN)),
        ("t", Document::Bool(false)),
        ("none", Document::Null),
        ("text", text("ünïcödé")),
    ]);
    let back = decode(&encode(&doc).unwrap()).unwrap();
    assert_eq!(field(&back, "key").and_then(|d| d.as_text()), Some(&"5".to_string()));
    assert_eq!(field(&back, "n").and_then(|d| d.as_integer()), Some(i64::MIN));
    assert!(matches!(field(&back, "t"), Some(Document::Bool(false))));
    assert!(field(&back, "none").unwrap().is_null());
    assert_eq!(field(&back, "text").and_then(|d| d.as_text()), Some(&"ünïcödé".to_string()));
    match &back {
        Document::Object(fields) => assert_eq!(fields.len(), 5),
        other => panic!("no object: {:?}", other),
    }
    assert_eq!(encode(&back), encode(&doc));
}

#[test]
fn decode_reads_back_nested_documents() {
    let doc = object(vec![
        ("a", Document::Array(vec![object(vec![("b", Document::Array(vec![]))]), Document::Null])),
        ("c", object(vec![("d", object(vec![]))])),
    ]);
    let bytes = encode(&doc).unwrap();
    let back = decode(&bytes).unwrap();
    assert_eq!(encode(&back), Some(bytes));
}

#[test]
fn encode_takes_every_document() {
    let deep = (0..100).fold(Document::Integer(i64::MIN), |inner, i| {
        if i % 2 == 0 {
            Document::Array(vec![inner, Document::Null])
        } else {
            object(vec![("", inner), ("k", text(""))])
        }
    });
    for doc in [
        Document::Null,
        Document::Integer(i64::MAX),
        Document::Integer(i64::MIN),
        text(""),
        Document::Array(vec![]),
        object(vec![]),
        object(vec![("a", Document::Null), ("a", Document::Null)]),
        deep,
    ] {
        assert!(encode(&doc).is_some(), "encoding {:?}", doc);
    }
}

#[test]
fn encode_takes_the_last_occurrence_at_every_level() {
    let repeated = object(vec![
        ("a", object(vec![("x", Document::Integer(1)), ("x", Document::Integer(2))])),
        ("b", text("first")),
        ("a", object(vec![("x", Document::Integer(3)), ("x", Document::Integer(4))])),
        ("b", text("second")),
    ]);
    let plain = object(vec![("a", object(vec![("x", Document::Integer(4))])), ("b", text("second"))]);
    assert_eq!(encode(&repeated), encode(&plain));
    let back = decode(&encode(&repeated).unwrap()).unwrap();
    assert_eq!(field(&back, "b").and_then(|d| d.as_text()), Some(&"second".to_string()));
    assert_eq!(
        field(&back, "a").and_then(|a| field(a, "x")).and_then(|d| d.as_integer()),
        Some(4)
    );
}
