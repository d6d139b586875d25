//! The repository: the six operations on items in a store, and what each of them gives.

use crate::codec::{cbor_decoding, decode};
use crate::document::{fields_of, merged, merged_document, Document, Json};
use crate::error::TodoError;
use crate::key::{
    decimal, decimal_bytes, greatest_in, greatest_key_number, lemma_decimal_encoding,
    lemma_greatest_in, lemma_number_of_decimal, next_number, number_of, successor_key,
};
use crate::store::{found_view, is_listing_of, listing_of, lookup, pairs_view, Store};
use crate::todo::{
    item_of, key_field, reads_back, record_bytes, record_of, todo_view, Todo, TodoView,
};
use vstd::prelude::*;
use vstd::utf8::*;

verus! {

/// Lists the records of a kind, up to a limit.
pub trait List<E>: Sized {
    fn list(store: &Store, limit: u64) -> Result<Vec<Self>, E>;
}

/// Fetches one record by its key.
pub trait Fetch<E>: Sized {
    fn fetch(store: &Store, key: &str) -> Result<Self, E>;
}

/// Creates a record from an input of type `I`.
pub trait Create<I, E>: Sized {
    fn create(store: &mut Store, data: I) -> Result<Self, E>;
}

/// Changes the record that an input of type `I` names, as far as the input says.
pub trait Update<I, E>: Sized {
    fn update(store: &mut Store, data: I) -> Result<Self, E>;
}

/// Puts an input of type `I` in the place of the record that it names.
pub trait Replace<I, E>: Sized {
    fn replace(store: &mut Store, data: I) -> Result<Self, E>;
}

/// Deletes one record by its key.
pub trait Delete<E>: Sized {
    fn delete(store: &mut Store, key: &str) -> Result<Self, E>;
}

/// The bytes of the store key for a record key: its UTF-8 encoding.
pub open spec fn key_bytes(key: Seq<char>) -> Seq<u8> {
    encode_utf8(key)
}

/// The value of a result that holds an item.
pub open spec fn result_view(r: Result<Todo, TodoError>) -> Result<TodoView, TodoError> {
    match r {
        Ok(item) => Ok(item@),
        Err(e) => Err(e),
    }
}

/// The values of a list of items.
pub open spec fn items_view(items: Seq<Todo>) -> Seq<TodoView> {
    Seq::new(items.len(), |i: int| items[i]@)
}

/// What the bytes found under a key give: the item that they stand for, `DecodeFailed` where
/// they stand for none, and `NotFound` where nothing was found.
pub open spec fn record_found(found: Option<Seq<u8>>) -> Result<TodoView, TodoError> {
    match found {
        None => Err(TodoError::NotFound),
        Some(bytes) => match record_of(bytes) {
            Some(item) => Ok(item),
            None => Err(TodoError::DecodeFailed),
        },
    }
}

/// What fetching `key` from a store that holds `entries` gives.
pub open spec fn fetched(entries: Map<Seq<u8>, Seq<u8>>, key: Seq<char>) -> Result<
    TodoView,
    TodoError,
> {
    record_found(lookup(entries, key_bytes(key)))
}

/// The items among the entries of a listing, in its order. An entry that stands for no item
/// is passed over.
pub open spec fn records_in(listing: Seq<(Seq<u8>, Seq<u8>)>) -> Seq<TodoView>
    decreases listing.len(),
{
    if listing.len() == 0 {
        Seq::empty()
    } else {
        let front = records_in(listing.drop_last());
        match record_of(listing.last().1) {
            Some(item) => front.push(item),
            None => front,
        }
    }
}

/// The items of a listing, in its order, and of these the first `limit` where there are more.
pub open spec fn first_records(listing: Seq<(Seq<u8>, Seq<u8>)>, limit: nat) -> Seq<TodoView> {
    let all = records_in(listing);
    if all.len() <= limit {
        all
    } else {
        all.take(limit as int)
    }
}

/// What listing a store that holds `entries` gives: its items in ascending dictionary order
/// of their store keys, and of these the first `limit` where there are more.
pub open spec fn listed(entries: Map<Seq<u8>, Seq<u8>>, limit: nat) -> Seq<TodoView> {
    first_records(listing_of(entries), limit)
}

/// `n` is the greatest number that a key of `entries` denotes, or 0 where none denotes a
/// number.
pub open spec fn is_greatest_number(entries: Map<Seq<u8>, Seq<u8>>, n: u64) -> bool {
    &&& forall|key: Seq<u8>| #[trigger]
        entries.contains_key(key) ==> (number_of(key) matches Some(m) ==> m <= n)
    &&& n == 0 || exists|key: Seq<u8>| #[trigger]
        entries.contains_key(key) && number_of(key) == Some(n)
}

/// The greatest number that a key of `entries` denotes, and 0 where none denotes a number.
pub open spec fn greatest_number(entries: Map<Seq<u8>, Seq<u8>>) -> u64 {
    choose|n: u64| is_greatest_number(entries, n)
}

/// The key that the next new record of a store gets: the decimal numeral of one more than
/// the greatest number that a key of the store denotes, so `1` in a store without such a key.
/// There is none where a key denotes the greatest number of 64 bits.
pub open spec fn next_key(entries: Map<Seq<u8>, Seq<u8>>) -> Option<Seq<char>> {
    match next_number(greatest_number(entries)) {
        Some(n) => Some(decimal(n as nat)),
        None => None,
    }
}

/// What `data` becomes as a new record where `greatest` is the greatest number in use: the
/// same item under the numeral of the next number, or `WriteFailed` where there is no next
/// number.
pub open spec fn keyed_after(data: TodoView, greatest: u64) -> Result<TodoView, TodoError> {
    match next_number(greatest) {
        Some(n) => Ok(TodoView { key: decimal(n as nat), ..data }),
        None => Err(TodoError::WriteFailed),
    }
}

/// A store has one greatest number.
pub proof fn lemma_greatest_number_is_one(entries: Map<Seq<u8>, Seq<u8>>, n: u64)
    requires
        is_greatest_number(entries, n),
    ensures
        greatest_number(entries) == n,
{
    let m = greatest_number(entries);
    assert(is_greatest_number(entries, m));
    if m < n {
        let key = choose|key: Seq<u8>| #[trigger]
            entries.contains_key(key) && number_of(key) == Some(n);
        assert(entries.contains_key(key));
    } else if n < m {
        let key = choose|key: Seq<u8>| #[trigger]
            entries.contains_key(key) && number_of(key) == Some(m);
        assert(entries.contains_key(key));
    }
}

/// The greatest number among the keys of a listing of a store is the greatest number of the
/// store.
pub proof fn lemma_listing_greatest(
    listing: Seq<(Seq<u8>, Seq<u8>)>,
    entries: Map<Seq<u8>, Seq<u8>>,
)
    requires
        is_listing_of(listing, entries),
    ensures
        is_greatest_number(entries, greatest_in(listing)),
        greatest_number(entries) == greatest_in(listing),
{
    lemma_greatest_in(listing);
    let g = greatest_in(listing);
    assert forall|key: Seq<u8>| #[trigger] entries.contains_key(key) implies (number_of(
        key,
    ) matches Some(m) ==> m <= g) by {
        let i = choose|i: int| 0 <= i < listing.len() && (#[trigger] listing[i]).0 == key;
    }
    if g != 0 {
        let i = choose|i: int|
            0 <= i < listing.len() && number_of((#[trigger] listing[i]).0) == Some(g);
        assert(entries.contains_key(listing[i].0));
    }
    lemma_greatest_number_is_one(entries, g);
}

/// The next key of a store is none of its keys.
pub proof fn lemma_next_key_is_fresh(entries: Map<Seq<u8>, Seq<u8>>, n: u64)
    requires
        is_greatest_number(entries, n),
        n < u64::MAX,
    ensures
        next_key(entries) == Some(decimal((n + 1) as nat)),
        key_bytes(decimal((n + 1) as nat)) == decimal_bytes((n + 1) as nat),
        !entries.contains_key(key_bytes(decimal((n + 1) as nat))),
{
    lemma_greatest_number_is_one(entries, n);
    lemma_decimal_encoding((n + 1) as nat);
    lemma_number_of_decimal((n + 1) as u64);
}

/// The record key that a patch names: the text of its field `key`.
pub open spec fn patch_key(patch: Json) -> Option<Seq<char>> {
    if fields_of(patch).contains_key(key_field()) && fields_of(patch)[key_field()] is Text {
        Some(fields_of(patch)[key_field()]->Text_0)
    } else {
        None
    }
}

/// A document as an object whose field `key` holds the text `key`.
pub open spec fn rekeyed(doc: Json, key: Seq<char>) -> Json {
    Json::Object(fields_of(doc).insert(key_field(), Json::Text(key)))
}

/// The item that a stored document becomes under a patch for the record `key`: the patch is
/// merged into the document, the key is set again, and the result is read as an item.
pub open spec fn patched(stored: Json, patch: Json, key: Seq<char>) -> Option<TodoView> {
    item_of(rekeyed(merged(stored, patch), key))
}

/// What updating a store that holds `entries` with `patch` gives.
pub open spec fn updated(entries: Map<Seq<u8>, Seq<u8>>, patch: Json) -> Result<
    TodoView,
    TodoError,
> {
    match patch_key(patch) {
        None => Err(TodoError::MissingKey),
        Some(key) => match lookup(entries, key_bytes(key)) {
            None => Err(TodoError::NotFound),
            Some(bytes) => match cbor_decoding(bytes) {
                None => Err(TodoError::DecodeFailed),
                Some(stored) => match patched(stored, patch, key) {
                    Some(item) => Ok(item),
                    None => Err(TodoError::DecodeFailed),
                },
            },
        },
    }
}

/// What a call of `list` may give, on a store that holds `entries`.
pub open spec fn list_outcome(
    entries: Map<Seq<u8>, Seq<u8>>,
    limit: nat,
    r: Result<Seq<TodoView>, TodoError>,
) -> bool {
    match r {
        Ok(items) => is_listing_of(listing_of(entries), entries) && items == listed(
            entries,
            limit,
        ),
        Err(e) => e == TodoError::StoreUnavailable,
    }
}

/// What a call of `fetch` may give, on a store that holds `entries`: what is under the key,
/// or `StoreUnavailable`.
pub open spec fn fetch_outcome(
    entries: Map<Seq<u8>, Seq<u8>>,
    key: Seq<char>,
    r: Result<TodoView, TodoError>,
) -> bool {
    r == Err::<TodoView, TodoError>(TodoError::StoreUnavailable) || r == fetched(entries, key)
}

/// What a call of `create` may give and do, on a store that holds `before` and then `after`.
/// A new item gets the next key of the store, which the store did not hold, and is added to
/// what the store held.
pub open spec fn create_outcome(
    before: Map<Seq<u8>, Seq<u8>>,
    after: Map<Seq<u8>, Seq<u8>>,
    data: TodoView,
    r: Result<TodoView, TodoError>,
) -> bool {
    &&& match r {
        Ok(item) => {
            &&& next_key(before) == Some(item.key)
            &&& item == (TodoView { key: item.key, ..data })
            &&& !before.contains_key(key_bytes(item.key))
            &&& after == before.insert(key_bytes(item.key), record_bytes(item))
            &&& reads_back(item)
            &&& fetched(after, item.key) == Ok::<TodoView, TodoError>(item)
        },
        Err(e) => {
            &&& e == TodoError::StoreUnavailable || e == TodoError::WriteFailed
            &&& e == TodoError::StoreUnavailable ==> after == before
        },
    }
    &&& next_key(before) is None ==> r is Err && after == before
}

/// What a call of `update` may give and do, on a store that holds `before` and then `after`.
/// Where the update cannot be made, the error is the one that says why, or `StoreUnavailable`;
/// `WriteFailed` comes only where the update could be made and the store did not take it.
pub open spec fn update_outcome(
    before: Map<Seq<u8>, Seq<u8>>,
    after: Map<Seq<u8>, Seq<u8>>,
    patch: Json,
    r: Result<TodoView, TodoError>,
) -> bool {
    &&& match r {
        Ok(item) => {
            &&& updated(before, patch) == Ok::<TodoView, TodoError>(item)
            &&& patch_key(patch) == Some(item.key)
            &&& after == before.insert(key_bytes(item.key), record_bytes(item))
            &&& reads_back(item)
            &&& fetched(after, item.key) == Ok::<TodoView, TodoError>(item)
        },
        Err(e) => {
            &&& e == TodoError::StoreUnavailable || (e == TodoError::WriteFailed && updated(
                before,
                patch,
            ) is Ok) || updated(before, patch) == Err::<TodoView, TodoError>(e)
            &&& e != TodoError::WriteFailed ==> after == before
        },
    }
    &&& patch_key(patch) is None ==> r == Err::<TodoView, TodoError>(TodoError::MissingKey)
    &&& updated(before, patch) is Err ==> r is Err && after == before
}

/// What a call of `replace` may give and do, on a store that holds `before` and then `after`.
pub open spec fn replace_outcome(
    before: Map<Seq<u8>, Seq<u8>>,
    after: Map<Seq<u8>, Seq<u8>>,
    data: TodoView,
    r: Result<TodoView, TodoError>,
) -> bool {
    match r {
        Ok(item) => {
            &&& item == data
            &&& after == before.insert(key_bytes(data.key), record_bytes(data))
            &&& reads_back(data)
            &&& fetched(after, data.key) == Ok::<TodoView, TodoError>(data)
        },
        Err(e) => e == TodoError::WriteFailed,
    }
}

/// What a call of `delete` may give and do, on a store that holds `before` and then `after`:
/// what was under the key, which is gone afterwards, or `WriteFailed`.
pub open spec fn delete_outcome(
    before: Map<Seq<u8>, Seq<u8>>,
    after: Map<Seq<u8>, Seq<u8>>,
    key: Seq<char>,
    r: Result<TodoView, TodoError>,
) -> bool {
    r == Err::<TodoView, TodoError>(TodoError::WriteFailed) || (r == fetched(before, key) && after
        == before.remove(key_bytes(key)))
}

/// The values of a result that holds a list of items.
pub open spec fn list_view(r: Result<Vec<Todo>, TodoError>) -> Result<Seq<TodoView>, TodoError> {
    match r {
        Ok(items) => Ok(items_view(items@)),
        Err(e) => Err(e),
    }
}

/// The items of the beginning of a listing are the beginning of the items of the listing.
pub proof fn lemma_records_in_prefix(listing: Seq<(Seq<u8>, Seq<u8>)>, n: int)
    requires
        0 <= n <= listing.len(),
    ensures
        records_in(listing.take(n)).len() <= records_in(listing).len(),
        records_in(listing.take(n)) == records_in(listing).take(
            records_in(listing.take(n)).len() as int,
        ),
    decreases listing.len(),
{
    if n == listing.len() {
        assert(listing.take(n) == listing);
    } else {
        lemma_records_in_prefix(listing.drop_last(), n);
        assert(listing.drop_last().take(n) == listing.take(n));
    }
}

impl Todo {
    /// The item in what was found under a key: `NotFound` where nothing was found,
    /// `DecodeFailed` where the bytes found stand for no item.
    pub fn from_found(found: &Option<Vec<u8>>) -> (r: Result<Todo, TodoError>)
        ensures
            result_view(r) == record_found(found_view(*found)),
    {
        match found {
            None => Err(TodoError::NotFound),
            Some(bytes) => match Todo::from_bytes(bytes.as_slice()) {
                Some(item) => Ok(item),
                None => Err(TodoError::DecodeFailed),
            },
        }
    }

    /// The items in the entries `pairs` of a store, in their order, and of these the first
    /// `limit` where there are more. An entry that stands for no item is passed over.
    pub fn list_from(pairs: &Vec<(Vec<u8>, Vec<u8>)>, limit: u64) -> (items: Vec<Todo>)
        ensures
            items_view(items@) == first_records(pairs_view(pairs@), limit as nat),
    {
        let ghost listing = pairs_view(pairs@);
        let mut items: Vec<Todo> = Vec::new();
        let mut i: usize = 0;
        while i < pairs.len() && (items.len() as u64) < limit
            invariant
                i <= pairs.len(),
                listing == pairs_view(pairs@),
                items.len() <= limit,
                items_view(items@) == records_in(listing.take(i as int)),
            decreases pairs.len() - i,
        {
            proof {
                assert(listing.take(i + 1).drop_last() == listing.take(i as int));
            }
            match Todo::from_bytes(pairs[i].1.as_slice()) {
                Some(item) => {
                    items.push(item);
                },
                None => {},
            }
            i = i + 1;
        }
        proof {
            lemma_records_in_prefix(listing, i as int);
            if i == pairs.len() {
                assert(listing.take(i as int) == listing);
            }
        }
        items
    }

    /// `data` as a new record where `greatest` is the greatest number in use: under the
    /// numeral of the next number, whatever key it came with. Fails with `WriteFailed` where
    /// there is no next number.
    pub fn keyed_after(data: Todo, greatest: u64) -> (r: Result<Todo, TodoError>)
        ensures
            result_view(r) == keyed_after(data@, greatest),
    {
        match successor_key(greatest) {
            Some(key) => Ok(data.with_key(key)),
            None => Err(TodoError::WriteFailed),
        }
    }

    /// The record key that `patch` names, if it names one.
    pub fn key_of_patch(patch: &Document) -> (r: Option<String>)
        ensures
            match r {
                Some(key) => patch_key(patch@) == Some(key@),
                None => patch_key(patch@) is None,
            },
    {
        match patch.get(&"key".to_owned()) {
            Some(field) => match field.as_text() {
                Some(text) => Some(text.clone()),
                None => None,
            },
            None => None,
        }
    }

    /// The item that the document `stored` becomes under `patch` for the record `key`, or
    /// `None` where the outcome has not the shape of an item.
    pub fn patched(stored: &Document, patch: &Document, key: &String) -> (r: Option<Todo>)
        ensures
            todo_view(r) == patched(stored@, patch@, key@),
    {
        let after = merged_document(stored, patch);
        let after = after.with_field("key".to_owned(), Document::Text(key.clone()));
        Todo::from_document(&after)
    }
}

impl List<TodoError> for Todo {
    /// The items of the store in ascending dictionary order of their store keys, and of these
    /// the first `limit` where there are more. Entries that stand for no item are passed over.
    /// Fails with `StoreUnavailable` when the store cannot be read.
    fn list(store: &Store, limit: u64) -> (r: Result<Vec<Todo>, TodoError>)
        ensures
            list_outcome(store@, limit as nat, list_view(r)),
    {
        match store.entries() {
            Ok(pairs) => Ok(Todo::list_from(&pairs, limit)),
            Err(e) => Err(e),
        }
    }
}

impl Fetch<TodoError> for Todo {
    /// The item stored under `key`. Fails with `NotFound` where the store holds nothing under
    /// `key`, with `DecodeFailed` where what it holds stands for no item, and with
    /// `StoreUnavailable` when the store cannot be read.
    fn fetch(store: &Store, key: &str) -> (r: Result<Todo, TodoError>)
        ensures
            fetch_outcome(store@, key@, result_view(r)),
    {
        match store.get(key.as_bytes()) {
            Ok(found) => Todo::from_found(&found),
            Err(e) => Err(e),
        }
    }
}

impl Create<Todo, TodoError> for Todo {
    /// Stores `data` as a new record under the next key of the store, whatever key `data`
    /// came with, and returns the item as stored. The next key is the numeral of one more than
    /// the greatest number that a key of the store denotes; the store does not hold it yet, so
    /// no record is written over. Fetching the key it was given returns the item. Fails with
    /// `StoreUnavailable` when the store cannot be read, and with `WriteFailed` where the store
    /// has no next key or does not take the record. A store without a next key is left as it
    /// was.
    fn create(store: &mut Store, data: Todo) -> (r: Result<Todo, TodoError>)
        ensures
            create_outcome(old(store)@, final(store)@, data@, result_view(r)),
    {
        let pairs = match store.entries() {
            Ok(pairs) => pairs,
            Err(e) => {
                return Err(e);
            },
        };
        let greatest = greatest_key_number(&pairs);
        proof {
            lemma_listing_greatest(pairs_view(pairs@), store@);
            if greatest < u64::MAX {
                lemma_next_key_is_fresh(store@, greatest);
            }
        }
        let item = match Todo::keyed_after(data, greatest) {
            Ok(item) => item,
            Err(e) => {
                return Err(e);
            },
        };
        let bytes = item.to_bytes().unwrap();
        match store.insert(item.key().as_str().as_bytes(), bytes) {
            Ok(_) => Ok(item),
            Err(e) => Err(e),
        }
    }
}

impl Update<Document, TodoError> for Todo {
    /// Merges `data` into the record that its field `key` names, and returns the item as
    /// stored afterwards, under the same key. Fails with `MissingKey` where `data` has no text
    /// under `key`, with `NotFound` where the store holds nothing under that key, with
    /// `DecodeFailed` where what it holds is no document or the outcome of the merge has not the
    /// shape of an item, with `StoreUnavailable` when the store cannot be read, and with
    /// `WriteFailed` when the record cannot be written. Only a failed write may change the
    /// store.
    fn update(store: &mut Store, data: Document) -> (r: Result<Todo, TodoError>)
        ensures
            update_outcome(old(store)@, final(store)@, data@, result_view(r)),
    {
        let key = match Todo::key_of_patch(&data) {
            Some(key) => key,
            None => {
                return Err(TodoError::MissingKey);
            },
        };
        let found = match store.get(key.as_str().as_bytes()) {
            Ok(found) => found,
            Err(e) => {
                return Err(e);
            },
        };
        let bytes = match found {
            Some(bytes) => bytes,
            None => {
                return Err(TodoError::NotFound);
            },
        };
        let stored = match decode(bytes.as_slice()) {
            Some(stored) => stored,
            None => {
                return Err(TodoError::DecodeFailed);
            },
        };
        let item = match Todo::patched(&stored, &data, &key) {
            Some(item) => item,
            None => {
                return Err(TodoError::DecodeFailed);
            },
        };
        let encoded = item.to_bytes().unwrap();
        match store.insert(key.as_str().as_bytes(), encoded) {
            Ok(_) => Ok(item),
            Err(e) => Err(e),
        }
    }
}

impl Replace<Todo, TodoError> for Todo {
    /// Stores `data` under its own key, in place of what was there or as a new record, and
    /// returns it. Fetching that key returns it. Fails with `WriteFailed` when the record cannot
    /// be written.
    fn replace(store: &mut Store, data: Todo) -> (r: Result<Todo, TodoError>)
        ensures
            replace_outcome(old(store)@, final(store)@, data@, result_view(r)),
    {
        let bytes = data.to_bytes().unwrap();
        match store.insert(data.key().as_str().as_bytes(), bytes) {
            Ok(_) => Ok(data),
            Err(e) => Err(e),
        }
    }
}

impl Delete<TodoError> for Todo {
    /// Takes the record under `key` out of the store and returns the item it held. Fails with
    /// `NotFound` where the store held nothing under `key`, with `DecodeFailed` where what it
    /// held stands for no item, which is taken out all the same, and with `WriteFailed` when
    /// the store does not accept the removal.
    fn delete(store: &mut Store, key: &str) -> (r: Result<Todo, TodoError>)
        ensures
            delete_outcome(old(store)@, final(store)@, key@, result_view(r)),
    {
        match store.remove(key.as_bytes()) {
            Ok(found) => Todo::from_found(&found),
            Err(e) => Err(e),
        }
    }
}

} // verus!
