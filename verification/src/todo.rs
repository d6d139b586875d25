//! Items, and how they are written as documents and as stored bytes.

use crate::clock::{now, unix_seconds, unix_seconds_of, MAX_SECONDS};
use crate::codec::{cbor_decoding, cbor_encoding, decode, encode, is_flat_object};
use crate::document::{fields_of, lemma_fields_view_push, Document, Json};
use vstd::prelude::*;

verus! {

/// What a request for a list may ask for.
#[derive(Debug)]
pub struct ListOptions {
    pub offset: Option<u64>,
    pub limit: Option<u64>,
}

/// How far the work on an item has come.
#[derive(Clone, Copy, Debug, PartialEq, Eq, Structural)]
pub enum TodoStatus {
    New,
    Started,
    Complete,
}

impl Default for TodoStatus {
    fn default() -> (status: Self)
        ensures
            status == TodoStatus::New,
    {
        TodoStatus::New
    }
}

/// The name under which a status is written into a document.
pub open spec fn status_name(status: TodoStatus) -> Seq<char> {
    match status {
        TodoStatus::New => "New"@,
        TodoStatus::Started => "Started"@,
        TodoStatus::Complete => "Complete"@,
    }
}

/// The status that a name stands for, if it is the name of one.
pub open spec fn status_named(name: Seq<char>) -> Option<TodoStatus> {
    if name == "New"@ {
        Some(TodoStatus::New)
    } else if name == "Started"@ {
        Some(TodoStatus::Started)
    } else if name == "Complete"@ {
        Some(TodoStatus::Complete)
    } else {
        None
    }
}

/// The name of the field that holds an item's key.
pub open spec fn key_field() -> Seq<char> {
    "key"@
}

/// The name of the field that holds an item's title.
pub open spec fn title_field() -> Seq<char> {
    "title"@
}

/// The name of the field that holds an item's timestamp.
pub open spec fn timestamp_field() -> Seq<char> {
    "timestamp"@
}

/// The name of the field that holds an item's status.
pub open spec fn status_field() -> Seq<char> {
    "status"@
}

/// The value of an item.
pub struct TodoView {
    pub key: Seq<char>,
    pub title: Seq<char>,
    pub timestamp: i64,
    pub status: TodoStatus,
}

/// The document that stands for an item: an object of its four fields.
pub open spec fn item_json(item: TodoView) -> Json {
    Json::Object(
        Map::empty().insert(key_field(), Json::Text(item.key)).insert(
            title_field(),
            Json::Text(item.title),
        ).insert(timestamp_field(), Json::Integer(item.timestamp as int)).insert(
            status_field(),
            Json::Text(status_name(item.status)),
        ),
    )
}

/// Whether a document has the shape of an item: an object with a text under `key` and under
/// `title`, a whole number of 64 bits with sign under `timestamp`, and the name of a status
/// under `status`. Other fields do not matter.
pub open spec fn has_item_shape(doc: Json) -> bool {
    let fields = fields_of(doc);
    &&& fields.contains_key(key_field()) && fields[key_field()] is Text
    &&& fields.contains_key(title_field()) && fields[title_field()] is Text
    &&& fields.contains_key(timestamp_field()) && fields[timestamp_field()] is Integer
    &&& i64::MIN <= fields[timestamp_field()]->Integer_0 <= i64::MAX
    &&& fields.contains_key(status_field()) && fields[status_field()] is Text
    &&& status_named(fields[status_field()]->Text_0) is Some
}

/// The item that a document stands for, where it has the shape of one.
pub open spec fn item_of(doc: Json) -> Option<TodoView> {
    if has_item_shape(doc) {
        let fields = fields_of(doc);
        Some(
            TodoView {
                key: fields[key_field()]->Text_0,
                title: fields[title_field()]->Text_0,
                timestamp: fields[timestamp_field()]->Integer_0 as i64,
                status: status_named(fields[status_field()]->Text_0)->Some_0,
            },
        )
    } else {
        None
    }
}

/// The bytes under which an item is stored.
pub open spec fn record_bytes(item: TodoView) -> Seq<u8> {
    cbor_encoding(item_json(item))
}

/// Whether the bytes under which an item is stored are read back as the document of the
/// item, and so as the item.
pub open spec fn reads_back(item: TodoView) -> bool {
    cbor_decoding(record_bytes(item)) == Some(item_json(item))
}

/// The item that stored bytes stand for, where they stand for one.
pub open spec fn record_of(bytes: Seq<u8>) -> Option<TodoView> {
    match cbor_decoding(bytes) {
        Some(doc) => item_of(doc),
        None => None,
    }
}

/// The four field names differ from each other.
pub proof fn lemma_field_names_differ()
    ensures
        key_field() != title_field(),
        key_field() != timestamp_field(),
        key_field() != status_field(),
        title_field() != timestamp_field(),
        title_field() != status_field(),
        timestamp_field() != status_field(),
{
    reveal_strlit("key");
    reveal_strlit("title");
    reveal_strlit("timestamp");
    reveal_strlit("status");
    assert(key_field().len() == 3);
    assert(title_field().len() == 5);
    assert(timestamp_field().len() == 9);
    assert(status_field().len() == 6);
}

/// Each status is the one that its name stands for.
pub proof fn lemma_status_name_read_back(status: TodoStatus)
    ensures
        status_named(status_name(status)) == Some(status),
{
    reveal_strlit("New");
    reveal_strlit("Started");
    reveal_strlit("Complete");
    assert("New"@.len() == 3);
    assert("Started"@.len() == 7);
    assert("Complete"@.len() == 8);
}

/// The document of an item is an object of scalars, and stands for that item.
pub proof fn lemma_item_json_read_back(item: TodoView)
    ensures
        is_flat_object(item_json(item)),
        item_of(item_json(item)) == Some(item),
{
    lemma_field_names_differ();
    lemma_status_name_read_back(item.status);
}

/// An item: a title with a key, the time it was made, and a status.
#[derive(Debug, PartialEq, Eq)]
pub struct Todo {
    key: String,
    title: String,
    timestamp: i64,
    status: TodoStatus,
}

impl View for Todo {
    type V = TodoView;

    closed spec fn view(&self) -> TodoView {
        TodoView {
            key: self.key@,
            title: self.title@,
            timestamp: self.timestamp,
            status: self.status,
        }
    }
}

impl Clone for Todo {
    fn clone(&self) -> (copy: Self)
        ensures
            copy@ == self@,
    {
        Todo {
            key: self.key.clone(),
            title: self.title.clone(),
            timestamp: self.timestamp,
            status: self.status,
        }
    }
}

/// The value of the item that `found` holds, if any.
pub open spec fn todo_view(found: Option<Todo>) -> Option<TodoView> {
    match found {
        Some(item) => Some(item@),
        None => None,
    }
}

/// The name of `status`, as a string.
fn status_text(status: TodoStatus) -> (name: String)
    ensures
        name@ == status_name(status),
{
    match status {
        TodoStatus::New => "New".to_owned(),
        TodoStatus::Started => "Started".to_owned(),
        TodoStatus::Complete => "Complete".to_owned(),
    }
}

/// The status that `name` stands for, if any.
fn parse_status(name: &String) -> (status: Option<TodoStatus>)
    ensures
        status == status_named(name@),
{
    if *name == "New".to_owned() {
        Some(TodoStatus::New)
    } else if *name == "Started".to_owned() {
        Some(TodoStatus::Started)
    } else if *name == "Complete".to_owned() {
        Some(TodoStatus::Complete)
    } else {
        None
    }
}

impl Todo {
    /// A new item with the given title, made `seconds` after the epoch: without a key, with
    /// the status `New`, and with the time in milliseconds.
    pub fn created_at(title: &str, seconds: i64) -> (item: Todo)
        requires
            i64::MIN <= seconds * 1000 <= i64::MAX,
        ensures
            item@ == (TodoView {
                key: Seq::empty(),
                title: title@,
                timestamp: (seconds * 1000) as i64,
                status: TodoStatus::New,
            }),
    {
        Todo {
            key: String::new(),
            title: title.to_owned(),
            timestamp: seconds * 1000,
            status: TodoStatus::New,
        }
    }

    /// A new item with the given title, made now: without a key, with the status `New`, and
    /// with the present time in milliseconds, which is a whole number of seconds.
    pub fn new(title: &str) -> (item: Todo)
        ensures
            item@.key == Seq::<char>::empty(),
            item@.title == title@,
            item@.status == TodoStatus::New,
            exists|seconds: i64|
                -MAX_SECONDS <= seconds <= MAX_SECONDS && item@.timestamp == #[trigger] (seconds
                    * 1000),
    {
        let date = now();
        let seconds: i64 = unix_seconds(&date);
        Todo::created_at(title, seconds)
    }

    /// Sets the time of this item to `seconds` after the epoch, in milliseconds.
    pub fn set_seconds(&mut self, seconds: i64)
        requires
            i64::MIN <= seconds * 1000 <= i64::MAX,
        ensures
            final(self)@ == (TodoView { timestamp: (seconds * 1000) as i64, ..old(self)@ }),
    {
        self.timestamp = seconds * 1000;
    }

    /// Sets the time of this item to the moment `date`, in milliseconds.
    pub fn back_date(&mut self, date: &time::OffsetDateTime)
        ensures
            final(self)@ == (TodoView {
                timestamp: (unix_seconds_of(*date) * 1000) as i64,
                ..old(self)@
            }),
            -MAX_SECONDS <= unix_seconds_of(*date) <= MAX_SECONDS,
    {
        let seconds: i64 = unix_seconds(date);
        self.set_seconds(seconds);
    }

    /// An item of the given parts.
    pub fn from_parts(key: String, title: String, timestamp: i64, status: TodoStatus) -> (item:
        Todo)
        ensures
            item@ == (TodoView { key: key@, title: title@, timestamp, status }),
    {
        Todo { key, title, timestamp, status }
    }

    /// This item under another key.
    pub fn with_key(self, key: String) -> (item: Todo)
        ensures
            item@ == (TodoView { key: key@, ..self@ }),
    {
        Todo { key, title: self.title, timestamp: self.timestamp, status: self.status }
    }

    /// The key of this item; empty as long as none was assigned.
    pub fn key(&self) -> (key: &String)
        ensures
            key@ == self@.key,
    {
        &self.key
    }

    /// The title of this item.
    pub fn title(&self) -> (title: &String)
        ensures
            title@ == self@.title,
    {
        &self.title
    }

    /// The time of this item, in milliseconds after the epoch.
    pub fn timestamp(&self) -> (timestamp: i64)
        ensures
            timestamp == self@.timestamp,
    {
        self.timestamp
    }

    /// The status of this item.
    pub fn status(&self) -> (status: TodoStatus)
        ensures
            status == self@.status,
    {
        self.status
    }

    /// The document that stands for this item.
    pub fn to_document(&self) -> (doc: Document)
        ensures
            doc@ == item_json(self@),
    {
        let mut fields: Vec<(String, Document)> = Vec::new();
        let key = ("key".to_owned(), Document::Text(self.key.clone()));
        let title = ("title".to_owned(), Document::Text(self.title.clone()));
        let timestamp = ("timestamp".to_owned(), Document::Integer(self.timestamp));
        let status = ("status".to_owned(), Document::Text(status_text(self.status)));
        proof {
            let none = Seq::<(String, Document)>::empty();
            lemma_fields_view_push(none, key);
            lemma_fields_view_push(none.push(key), title);
            lemma_fields_view_push(none.push(key).push(title), timestamp);
            lemma_fields_view_push(none.push(key).push(title).push(timestamp), status);
        }
        fields.push(key);
        fields.push(title);
        fields.push(timestamp);
        fields.push(status);
        Document::Object(fields)
    }

    /// The item that `doc` stands for, or `None` where `doc` has not the shape of an item.
    pub fn from_document(doc: &Document) -> (found: Option<Todo>)
        ensures
            todo_view(found) == item_of(doc@),
    {
        let key = match doc.get(&"key".to_owned()) {
            Some(field) => match field.as_text() {
                Some(text) => text.clone(),
                None => {
                    return None;
                },
            },
            None => {
                return None;
            },
        };
        let title = match doc.get(&"title".to_owned()) {
            Some(field) => match field.as_text() {
                Some(text) => text.clone(),
                None => {
                    return None;
                },
            },
            None => {
                return None;
            },
        };
        let timestamp: i64 = match doc.get(&"timestamp".to_owned()) {
            Some(field) => match field.as_integer() {
                Some(n) => n,
                None => {
                    return None;
                },
            },
            None => {
                return None;
            },
        };
        let status = match doc.get(&"status".to_owned()) {
            Some(field) => match field.as_text() {
                Some(text) => match parse_status(text) {
                    Some(status) => status,
                    None => {
                        return None;
                    },
                },
                None => {
                    return None;
                },
            },
            None => {
                return None;
            },
        };
        Some(Todo { key, title, timestamp, status })
    }

    /// The bytes under which this item is stored. There are such bytes for every item, so
    /// the result is never `None`. Read back, the bytes give this item.
    pub fn to_bytes(&self) -> (r: Option<Vec<u8>>)
        ensures
            r matches Some(bytes) && bytes@ == record_bytes(self@) && reads_back(self@)
                && record_of(bytes@) == Some(self@),
    {
        let doc = self.to_document();
        proof {
            lemma_item_json_read_back(self@);
        }
        encode(&doc)
    }

    /// The item that stored bytes stand for, or `None` where they stand for none.
    pub fn from_bytes(bytes: &[u8]) -> (found: Option<Todo>)
        ensures
            todo_view(found) == record_of(bytes@),
    {
        match decode(bytes) {
            Some(doc) => Todo::from_document(&doc),
            None => None,
        }
    }
}

} // verus!
