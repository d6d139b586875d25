use various_micro_services::error::TodoError;
use various_micro_services::document::Document;
use various_micro_services::repository::{Create, Delete, Fetch, List, Replace, Update};
use various_micro_services::store::Store;
use various_micro_services::todo::{Todo, TodoStatus};

fn empty_store() -> Store {
    Store::new(sled::Config::new().temporary(true).open().unwrap())
}

fn item(key: &str, title: &str, timestamp: i64, status: TodoStatus) -> Todo {
    Todo::from_parts(key.to_string(), title.to_string(), timestamp, status)
}

fn text(s: &str) -> Document {
    Document::Text(s.to_string())
}

fn object(fields: Vec<(&str, Document)>) -> Document {
    Document::Object(fields.into_iter().map(|(name, value)| (name.to_string(), value)).collect())
}

#[test]
fn it_works() {
    assert_eq!(2 + 2, 4);
}

#[test]
fn create_then_fetch_gives_the_created_item() {
    let mut store = empty_store();
    let created = Todo::create(&mut store, item("ignored", "Write more tests", 1588237987000, TodoStatus::Started)).unwrap();
    assert_eq!(created, item("1", "Write more tests", 1588237987000, TodoStatus::Started));
    let fetched = Todo::fetch(&store, created.key()).unwrap();
    assert_eq!(fetched, created);
}

#[test]
fn create_ignores_the_key_of_its_input() {
    let mut store = empty_store();
    let created = Todo::create(&mut store, item("42", "a", 0, TodoStatus::New)).unwrap();
    assert_eq!(created.key(), "1");
    assert_eq!(Todo::fetch(&store, "42"), Err(TodoError::NotFound));
}

#[test]
fn ten_creates_on_an_empty_store_count_from_one() {
    let mut store = empty_store();
    for n in 1..=10 {
        let created = Todo::create(&mut store, item("", "t", n, TodoStatus::New)).unwrap();
        assert_eq!(created.key(), &n.to_string());
        assert_eq!(created.timestamp(), n);
    }
    let all = Todo::list(&store, 100).unwrap();
    assert_eq!(all.len(), 10);
}

#[test]
fn the_eleventh_create_gets_the_key_eleven() {
    let mut store = empty_store();
    for n in 1..=10 {
        Todo::create(&mut store, item("", "a", n, TodoStatus::New)).unwrap();
    }
    // "9" comes after "10" in dictionary order, but 10 is the greatest number in use.
    let created = Todo::create(&mut store, item("", "b", 11, TodoStatus::New)).unwrap();
    assert_eq!(created.key(), "11");
    assert_eq!(Todo::fetch(&store, "11").unwrap().title(), "b");
    assert_eq!(Todo::fetch(&store, "10").unwrap(), item("10", "a", 10, TodoStatus::New));
    assert_eq!(Todo::list(&store, 100).unwrap().len(), 11);
}

#[test]
fn many_creates_count_from_one_and_write_over_nothing() {
    let mut store = empty_store();
    for n in 1..=120 {
        let created = Todo::create(&mut store, item("", "t", n, TodoStatus::New)).unwrap();
        assert_eq!(created.key(), &n.to_string());
    }
    let all = Todo::list(&store, 1000).unwrap();
    assert_eq!(all.len(), 120);
    for n in 1..=120 {
        assert_eq!(Todo::fetch(&store, &n.to_string()).unwrap().timestamp(), n);
    }
}

#[test]
fn create_then_delete_leaves_the_store_as_it_was() {
    let mut store = empty_store();
    for n in 1..=10 {
        Todo::create(&mut store, item("", "a", n, TodoStatus::New)).unwrap();
    }
    let before = store.entries().unwrap();
    let created = Todo::create(&mut store, item("", "b", 0, TodoStatus::Started)).unwrap();
    assert_eq!(store.entries().unwrap().len(), before.len() + 1);
    assert_eq!(Todo::delete(&mut store, created.key()), Ok(created));
    assert_eq!(store.entries().unwrap(), before);
}

#[test]
fn create_does_not_reuse_the_key_of_a_deleted_record_below_the_greatest() {
    let mut store = empty_store();
    for n in 1..=3 {
        Todo::create(&mut store, item("", "a", n, TodoStatus::New)).unwrap();
    }
    Todo::delete(&mut store, "2").unwrap();
    assert_eq!(Todo::create(&mut store, item("", "b", 0, TodoStatus::New)).unwrap().key(), "4");
    Todo::delete(&mut store, "4").unwrap();
    assert_eq!(Todo::create(&mut store, item("", "c", 0, TodoStatus::New)).unwrap().key(), "4");
}

#[test]
fn create_after_a_key_with_a_plus_sign() {
    let mut store = empty_store();
    Todo::replace(&mut store, item("+41", "t", 0, TodoStatus::New)).unwrap();
    let created = Todo::create(&mut store, item("", "u", 0, TodoStatus::New)).unwrap();
    assert_eq!(created.key(), "42");
}

#[test]
fn create_passes_over_keys_that_denote_no_number() {
    let mut store = empty_store();
    Todo::replace(&mut store, item("abc", "letters", 0, TodoStatus::New)).unwrap();
    let first = Todo::create(&mut store, item("", "u", 0, TodoStatus::New)).unwrap();
    assert_eq!(first.key(), "1");
    Todo::replace(&mut store, item("7", "seven", 0, TodoStatus::New)).unwrap();
    Todo::replace(&mut store, item("zzz", "letters", 0, TodoStatus::New)).unwrap();
    let second = Todo::create(&mut store, item("", "v", 0, TodoStatus::New)).unwrap();
    assert_eq!(second.key(), "8");
    assert_eq!(Todo::list(&store, 100).unwrap().len(), 5);
    assert_eq!(Todo::fetch(&store, "abc").unwrap().title(), "letters");
}

#[test]
fn create_counts_every_numeral_of_a_number() {
    let mut store = empty_store();
    Todo::replace(&mut store, item("007", "zeros", 0, TodoStatus::New)).unwrap();
    assert_eq!(Todo::create(&mut store, item("", "u", 0, TodoStatus::New)).unwrap().key(), "8");
    Todo::replace(&mut store, item("+9", "plus", 0, TodoStatus::New)).unwrap();
    assert_eq!(Todo::create(&mut store, item("", "v", 0, TodoStatus::New)).unwrap().key(), "10");
    assert_eq!(Todo::fetch(&store, "+9").unwrap().title(), "plus");
}

#[test]
fn create_fails_after_the_greatest_number() {
    let mut store = empty_store();
    Todo::replace(&mut store, item("18446744073709551615", "max", 0, TodoStatus::New)).unwrap();
    let before = store.entries().unwrap();
    let r = Todo::create(&mut store, item("", "u", 0, TodoStatus::New));
    assert_eq!(r, Err(TodoError::WriteFailed));
    assert_eq!(store.entries().unwrap(), before);
    let mut other = empty_store();
    Todo::replace(&mut other, item("18446744073709551614", "below", 0, TodoStatus::New)).unwrap();
    let created = Todo::create(&mut other, item("", "u", 0, TodoStatus::New)).unwrap();
    assert_eq!(created.key(), "18446744073709551615");
}

#[test]
fn replace_stores_a_new_record() {
    let mut store = empty_store();
    let data = item("K", "fresh", 12, TodoStatus::Complete);
    let stored = Todo::replace(&mut store, data.clone()).unwrap();
    assert_eq!(stored, data);
    assert_eq!(Todo::fetch(&store, "K").unwrap(), data);
}

#[test]
fn replace_overwrites_an_existing_record() {
    let mut store = empty_store();
    Todo::replace(&mut store, item("K", "old", 1, TodoStatus::New)).unwrap();
    let data = item("K", "new", 2, TodoStatus::Started);
    Todo::replace(&mut store, data.clone()).unwrap();
    assert_eq!(Todo::fetch(&store, "K").unwrap(), data);
    assert_eq!(Todo::list(&store, 100).unwrap(), vec![data]);
}

#[test]
fn replace_keeps_a_key_that_is_not_ascii() {
    let mut store = empty_store();
    let data = item("clé-é", "accent", 3, TodoStatus::New);
    Todo::replace(&mut store, data.clone()).unwrap();
    assert_eq!(Todo::fetch(&store, "clé-é").unwrap(), data);
    assert_eq!(Todo::fetch(&store, "cle-e"), Err(TodoError::NotFound));
}

#[test]
fn update_merges_the_patch_and_keeps_the_key() {
    let mut store = empty_store();
    Todo::replace(&mut store, item("5", "A", 77, TodoStatus::New)).unwrap();
    let patch = object(vec![("key", text("5")), ("title", text("B"))]);
    let updated = Todo::update(&mut store, patch).unwrap();
    assert_eq!(updated, item("5", "B", 77, TodoStatus::New));
    assert_eq!(Todo::fetch(&store, "5").unwrap(), item("5", "B", 77, TodoStatus::New));
}

#[test]
fn update_changes_status_and_timestamp() {
    let mut store = empty_store();
    Todo::replace(&mut store, item("5", "A", 77, TodoStatus::New)).unwrap();
    let patch = object(vec![
        ("status", text("Complete")),
        ("timestamp", Document::Integer(-3)),
        ("key", text("5")),
        ("colour", text("green")),
    ]);
    let updated = Todo::update(&mut store, patch).unwrap();
    assert_eq!(updated, item("5", "A", -3, TodoStatus::Complete));
}

#[test]
fn update_takes_the_last_key_field_of_the_patch() {
    let mut store = empty_store();
    Todo::replace(&mut store, item("5", "five", 0, TodoStatus::New)).unwrap();
    Todo::replace(&mut store, item("6", "six", 0, TodoStatus::New)).unwrap();
    let patch = object(vec![("key", text("5")), ("title", text("B")), ("key", text("6"))]);
    let updated = Todo::update(&mut store, patch).unwrap();
    assert_eq!(updated, item("6", "B", 0, TodoStatus::New));
    assert_eq!(Todo::fetch(&store, "5").unwrap().title(), "five");
}

#[test]
fn update_without_a_key_fails_with_missing_key() {
    let mut store = empty_store();
    Todo::replace(&mut store, item("5", "A", 77, TodoStatus::New)).unwrap();
    let no_key = object(vec![("title", text("B"))]);
    assert_eq!(Todo::update(&mut store, no_key), Err(TodoError::MissingKey));
    let number_key = object(vec![("key", Document::Integer(5)), ("title", text("B"))]);
    assert_eq!(Todo::update(&mut store, number_key), Err(TodoError::MissingKey));
    let null_key = object(vec![("key", Document::Null)]);
    assert_eq!(Todo::update(&mut store, null_key), Err(TodoError::MissingKey));
    assert_eq!(Todo::update(&mut store, text("5")), Err(TodoError::MissingKey));
    assert_eq!(Todo::update(&mut store, Document::Array(vec![text("key")])), Err(TodoError::MissingKey));
    assert_eq!(Todo::update(&mut store, Document::Null), Err(TodoError::MissingKey));
    assert_eq!(Todo::fetch(&store, "5").unwrap(), item("5", "A", 77, TodoStatus::New));
}

#[test]
fn update_of_an_absent_record_fails_with_not_found() {
    let mut store = empty_store();
    Todo::replace(&mut store, item("5", "A", 77, TodoStatus::New)).unwrap();
    let patch = object(vec![("key", text("6")), ("title", text("B"))]);
    assert_eq!(Todo::update(&mut store, patch), Err(TodoError::NotFound));
    assert_eq!(Todo::fetch(&store, "6"), Err(TodoError::NotFound));
}

#[test]
fn update_that_breaks_the_shape_fails_with_decode_failed() {
    let mut store = empty_store();
    Todo::replace(&mut store, item("5", "A", 77, TodoStatus::New)).unwrap();
    let drops_title = object(vec![("key", text("5")), ("title", Document::Null)]);
    assert_eq!(Todo::update(&mut store, drops_title), Err(TodoError::DecodeFailed));
    let bad_status = object(vec![("key", text("5")), ("status", text("Done"))]);
    assert_eq!(Todo::update(&mut store, bad_status), Err(TodoError::DecodeFailed));
    let bad_time = object(vec![("key", text("5")), ("timestamp", text("now"))]);
    assert_eq!(Todo::update(&mut store, bad_time), Err(TodoError::DecodeFailed));
    let nested_title = object(vec![("key", text("5")), ("title", object(vec![("en", text("B"))]))]);
    assert_eq!(Todo::update(&mut store, nested_title), Err(TodoError::DecodeFailed));
    assert_eq!(Todo::fetch(&store, "5").unwrap(), item("5", "A", 77, TodoStatus::New));
}

#[test]
fn update_of_a_corrupt_record_fails_with_decode_failed() {
    let mut store = empty_store();
    store.insert(b"5", vec![0xff, 0x00]).unwrap();
    let patch = object(vec![("key", text("5")), ("title", text("B"))]);
    assert_eq!(Todo::update(&mut store, patch), Err(TodoError::DecodeFailed));
    assert_eq!(store.get(b"5").unwrap(), Some(vec![0xff, 0x00]));
}

#[test]
fn update_can_complete_a_foreign_document() {
    let mut store = empty_store();
    // A stored document with only a title: {"title": "A"} in CBOR.
    store.insert(b"5", vec![0xa1, 0x65, b't', b'i', b't', b'l', b'e', 0x61, b'A']).unwrap();
    assert_eq!(Todo::fetch(&store, "5"), Err(TodoError::DecodeFailed));
    let patch = object(vec![
        ("key", text("5")),
        ("timestamp", Document::Integer(9)),
        ("status", text("Started")),
    ]);
    let updated = Todo::update(&mut store, patch).unwrap();
    assert_eq!(updated, item("5", "A", 9, TodoStatus::Started));
    assert_eq!(Todo::fetch(&store, "5").unwrap(), updated);
}

#[test]
fn delete_returns_the_record_and_removes_it() {
    let mut store = empty_store();
    let data = item("K", "gone soon", 5, TodoStatus::Started);
    Todo::replace(&mut store, data.clone()).unwrap();
    assert_eq!(Todo::delete(&mut store, "K").unwrap(), data);
    assert_eq!(Todo::fetch(&store, "K"), Err(TodoError::NotFound));
    assert_eq!(Todo::delete(&mut store, "K"), Err(TodoError::NotFound));
}

#[test]
fn delete_of_an_absent_record_fails_with_not_found() {
    let mut store = empty_store();
    Todo::replace(&mut store, item("1", "stays", 5, TodoStatus::New)).unwrap();
    assert_eq!(Todo::delete(&mut store, "2"), Err(TodoError::NotFound));
    assert_eq!(Todo::list(&store, 10).unwrap().len(), 1);
}

#[test]
fn delete_of_a_corrupt_record_fails_with_decode_failed_and_removes_it() {
    let mut store = empty_store();
    store.insert(b"3", vec![0x01, 0x02, 0x03]).unwrap();
    assert_eq!(Todo::delete(&mut store, "3"), Err(TodoError::DecodeFailed));
    assert_eq!(store.get(b"3").unwrap(), None);
    assert_eq!(Todo::delete(&mut store, "3"), Err(TodoError::NotFound));
}

#[test]
fn fetch_of_an_absent_record_fails_with_not_found() {
    let store = empty_store();
    assert_eq!(Todo::fetch(&store, "1"), Err(TodoError::NotFound));
    assert_eq!(Todo::fetch(&store, ""), Err(TodoError::NotFound));
}

#[test]
fn list_returns_the_first_items_in_key_order() {
    let mut store = empty_store();
    for key in ["3", "1", "5", "2", "4"] {
        Todo::replace(&mut store, item(key, key, 0, TodoStatus::New)).unwrap();
    }
    let two = Todo::list(&store, 2).unwrap();
    assert_eq!(two, vec![item("1", "1", 0, TodoStatus::New), item("2", "2", 0, TodoStatus::New)]);
    let five = Todo::list(&store, 5).unwrap();
    let keys: Vec<&str> = five.iter().map(|t| t.key().as_str()).collect();
    assert_eq!(keys, vec!["1", "2", "3", "4", "5"]);
    assert_eq!(Todo::list(&store, 6).unwrap().len(), 5);
    assert_eq!(Todo::list(&store, u64::MAX).unwrap().len(), 5);
}

#[test]
fn list_with_limit_zero_is_empty() {
    let mut store = empty_store();
    Todo::replace(&mut store, item("1", "one", 0, TodoStatus::New)).unwrap();
    assert_eq!(Todo::list(&store, 0).unwrap(), Vec::<Todo>::new());
}

#[test]
fn list_of_an_empty_store_is_empty() {
    let store = empty_store();
    assert_eq!(Todo::list(&store, 100), Ok(Vec::new()));
}

#[test]
fn list_orders_keys_as_byte_strings() {
    let mut store = empty_store();
    for key in ["10", "9", "1", "b", "B", "100"] {
        Todo::replace(&mut store, item(key, key, 0, TodoStatus::New)).unwrap();
    }
    let all = Todo::list(&store, 100).unwrap();
    let keys: Vec<&str> = all.iter().map(|t| t.key().as_str()).collect();
    assert_eq!(keys, vec!["1", "10", "100", "9", "B", "b"]);
}

#[test]
fn corrupt_record_is_skipped_by_list_and_fails_fetch() {
    let mut store = empty_store();
    Todo::replace(&mut store, item("1", "one", 0, TodoStatus::New)).unwrap();
    store.insert(b"2", b"not a record".to_vec()).unwrap();
    Todo::replace(&mut store, item("3", "three", 0, TodoStatus::New)).unwrap();
    let all = Todo::list(&store, 100).unwrap();
    assert_eq!(all, vec![item("1", "one", 0, TodoStatus::New), item("3", "three", 0, TodoStatus::New)]);
    // The corrupt record does not count against the limit.
    assert_eq!(Todo::list(&store, 2).unwrap(), all);
    assert_eq!(Todo::fetch(&store, "2"), Err(TodoError::DecodeFailed));
    assert_eq!(Todo::fetch(&store, "1").unwrap(), item("1", "one", 0, TodoStatus::New));
    assert_eq!(Todo::fetch(&store, "3").unwrap(), item("3", "three", 0, TodoStatus::New));
}

#[test]
fn stored_document_that_is_no_item_counts_as_corrupt() {
    let mut store = empty_store();
    // The CBOR text "hello", and the empty map.
    store.insert(b"1", vec![0x65, b'h', b'e', b'l', b'l', b'o']).unwrap();
    store.insert(b"2", vec![0xa0]).unwrap();
    assert_eq!(Todo::fetch(&store, "1"), Err(TodoError::DecodeFailed));
    assert_eq!(Todo::fetch(&store, "2"), Err(TodoError::DecodeFailed));
    assert_eq!(Todo::list(&store, 100), Ok(Vec::new()));
}

#[test]
fn from_found_tells_the_three_outcomes() {
    let data = item("1", "one", 0, TodoStatus::New);
    let bytes = data.to_bytes().unwrap();
    assert_eq!(Todo::from_found(&Some(bytes)), Ok(data));
    assert_eq!(Todo::from_found(&Some(vec![0xff])), Err(TodoError::DecodeFailed));
    assert_eq!(Todo::from_found(&None), Err(TodoError::NotFound));
}

#[test]
fn key_of_patch_reads_the_text_under_key() {
    assert_eq!(Todo::key_of_patch(&object(vec![("key", text("7"))])), Some("7".to_string()));
    assert_eq!(Todo::key_of_patch(&object(vec![("key", text(""))])), Some(String::new()));
    assert_eq!(Todo::key_of_patch(&object(vec![("_key", text("7"))])), None);
    assert_eq!(Todo::key_of_patch(&object(vec![("key", Document::Bool(true))])), None);
    assert_eq!(Todo::key_of_patch(&object(vec![])), None);
}

#[test]
fn patched_merges_sets_the_key_and_reads_the_item() {
    let stored = item("5", "A", 77, TodoStatus::New).to_document();
    let patch = object(vec![("key", text("other")), ("title", text("B"))]);
    let r = Todo::patched(&stored, &patch, &"5".to_string());
    assert_eq!(r, Some(item("5", "B", 77, TodoStatus::New)));
    let drops_status = object(vec![("status", Document::Null)]);
    assert_eq!(Todo::patched(&stored, &drops_status, &"5".to_string()), None);
    // A patch that is no object takes the place of the document, which then lacks the fields.
    assert_eq!(Todo::patched(&stored, &text("B"), &"5".to_string()), None);
}

#[test]
fn list_from_takes_the_first_items_of_the_entries() {
    let one = item("1", "one", 1, TodoStatus::New);
    let two = item("2", "two", 2, TodoStatus::Started);
    let three = item("3", "three", 3, TodoStatus::Complete);
    let pairs = vec![
        (b"1".to_vec(), one.to_bytes().unwrap()),
        (b"x".to_vec(), vec![0xff]),
        (b"2".to_vec(), two.to_bytes().unwrap()),
        (b"y".to_vec(), Vec::new()),
        (b"3".to_vec(), three.to_bytes().unwrap()),
    ];
    assert_eq!(Todo::list_from(&pairs, 0), Vec::<Todo>::new());
    assert_eq!(Todo::list_from(&pairs, 1), vec![one.clone()]);
    assert_eq!(Todo::list_from(&pairs, 2), vec![one.clone(), two.clone()]);
    assert_eq!(Todo::list_from(&pairs, 3), vec![one.clone(), two.clone(), three.clone()]);
    assert_eq!(Todo::list_from(&pairs, u64::MAX), vec![one, two, three]);
    assert_eq!(Todo::list_from(&Vec::new(), 5), Vec::<Todo>::new());
}

#[test]
fn list_from_goes_by_the_order_of_the_entries() {
    let one = item("1", "one", 1, TodoStatus::New);
    let two = item("2", "two", 2, TodoStatus::New);
    let pairs = vec![(b"2".to_vec(), two.to_bytes().unwrap()), (b"1".to_vec(), one.to_bytes().unwrap())];
    assert_eq!(Todo::list_from(&pairs, 5), vec![two, one]);
}

#[test]
fn keyed_after_gives_the_next_key() {
    let data = item("mine", "t", 7, TodoStatus::Started);
    assert_eq!(Todo::keyed_after(data.clone(), 0), Ok(item("1", "t", 7, TodoStatus::Started)));
    assert_eq!(Todo::keyed_after(data.clone(), 9), Ok(item("10", "t", 7, TodoStatus::Started)));
    assert_eq!(Todo::keyed_after(data.clone(), 10), Ok(item("11", "t", 7, TodoStatus::Started)));
    assert_eq!(
        Todo::keyed_after(data, u64::MAX - 1),
        Ok(item("18446744073709551615", "t", 7, TodoStatus::Started))
    );
}

#[test]
fn keyed_after_fails_after_the_greatest_number() {
    let data = item("mine", "t", 7, TodoStatus::Started);
    assert_eq!(Todo::keyed_after(data, u64::MAX), Err(TodoError::WriteFailed));
}
