//! What holds of the repository across its operations.

use crate::document::{field_or_null, fields_of, merged, Json};
use crate::error::TodoError;
use crate::key::{
    decimal, decimal_bytes, lemma_decimal_bytes_spell, lemma_decimal_encoding,
    lemma_number_of_decimal, number_of,
};
use crate::repository::{
    create_outcome, delete_outcome, fetch_outcome, fetched, is_greatest_number, key_bytes,
    lemma_greatest_number_is_one, lemma_next_key_is_fresh, list_outcome, listed, patch_key,
    patched, records_in, replace_outcome, update_outcome,
};
use crate::store::{bytes_lt, is_listing_of, lemma_listings_agree, listing_of};
use crate::todo::{
    item_json, lemma_field_names_differ, lemma_status_name_read_back, reads_back, record_bytes,
    record_of, status_field, status_name, timestamp_field, title_field, TodoStatus, TodoView,
};
use vstd::prelude::*;
use vstd::utf8::*;

verus! {

/// A store holds exactly the keys `1` to `n`, as decimal numerals.
pub open spec fn holds_keys_up_to(entries: Map<Seq<u8>, Seq<u8>>, n: nat) -> bool {
    forall|key: Seq<u8>| #[trigger]
        entries.contains_key(key) <==> exists|i: nat|
            1 <= i <= n && key == #[trigger] decimal_bytes(i)
}

/// A run of successful `create` calls that starts on an empty store: `stores` holds what the
/// store held before the first call and after each call, `data` what each call was given, and
/// `items` what it returned.
pub open spec fn is_run_of_creates(
    stores: Seq<Map<Seq<u8>, Seq<u8>>>,
    data: Seq<TodoView>,
    items: Seq<TodoView>,
) -> bool {
    &&& stores.len() == items.len() + 1
    &&& data.len() == items.len()
    &&& stores[0] == Map::<Seq<u8>, Seq<u8>>::empty()
    &&& forall|i: int|
        0 <= i < items.len() ==> #[trigger] create_outcome(
            stores[i],
            stores[i + 1],
            data[i],
            Ok(items[i]),
        )
}

/// Different record keys have different store keys.
pub proof fn lemma_key_bytes_differ(first: Seq<char>, second: Seq<char>)
    requires
        first != second,
    ensures
        key_bytes(first) != key_bytes(second),
{
    encode_utf8_decode_utf8(first);
    encode_utf8_decode_utf8(second);
}

/// What `create` has stored, `fetch` finds under the key that `create` returned: a fetch from
/// the store as `create` left it gives the created item, unless the store cannot be read.
pub proof fn law_create_then_fetch(
    before: Map<Seq<u8>, Seq<u8>>,
    after: Map<Seq<u8>, Seq<u8>>,
    data: TodoView,
    created: TodoView,
    found: Result<TodoView, TodoError>,
)
    requires
        create_outcome(before, after, data, Ok(created)),
        fetch_outcome(after, created.key, found),
    ensures
        found == Ok::<TodoView, TodoError>(created) || found == Err::<TodoView, TodoError>(
            TodoError::StoreUnavailable,
        ),
        created.title == data.title,
        created.timestamp == data.timestamp,
        created.status == data.status,
{
}

/// On a store that holds exactly the keys `1` to `n`, `create` gives the new item the key
/// `n + 1`, and the store then holds exactly the keys `1` to `n + 1`.
pub proof fn law_create_takes_next_key(
    before: Map<Seq<u8>, Seq<u8>>,
    after: Map<Seq<u8>, Seq<u8>>,
    data: TodoView,
    created: TodoView,
    n: nat,
)
    requires
        holds_keys_up_to(before, n),
        create_outcome(before, after, data, Ok(created)),
    ensures
        created.key == decimal(n + 1),
        holds_keys_up_to(after, n + 1),
{
    let greatest: u64 = if n < u64::MAX {
        n as u64
    } else {
        u64::MAX
    };
    assert forall|key: Seq<u8>| #[trigger] before.contains_key(key) implies (number_of(
        key,
    ) matches Some(m) ==> m <= greatest) by {
        let i = choose|i: nat| 1 <= i <= n && key == #[trigger] decimal_bytes(i);
        lemma_decimal_bytes_spell(i);
    }
    if greatest > 0 {
        lemma_number_of_decimal(greatest);
        assert(before.contains_key(decimal_bytes(greatest as nat)));
    }
    assert(is_greatest_number(before, greatest));
    lemma_greatest_number_is_one(before, greatest);
    if n < u64::MAX {
        lemma_next_key_is_fresh(before, greatest);
        assert forall|key: Seq<u8>| #[trigger] after.contains_key(key) implies exists|i: nat|
            1 <= i <= n + 1 && key == #[trigger] decimal_bytes(i) by {
            if key != decimal_bytes(n + 1) {
                let i = choose|i: nat| 1 <= i <= n && key == #[trigger] decimal_bytes(i);
                assert(1 <= i <= n + 1 && key == decimal_bytes(i));
            }
        }
        assert forall|key: Seq<u8>|
            (exists|i: nat| 1 <= i <= n + 1 && key == #[trigger] decimal_bytes(i)) implies #[trigger]
            after.contains_key(key) by {
            let i = choose|i: nat| 1 <= i <= n + 1 && key == #[trigger] decimal_bytes(i);
            if i <= n {
                assert(before.contains_key(key));
            }
        }
    }
}

/// Different numbers have different numerals.
pub proof fn lemma_decimals_differ(first: nat, second: nat)
    requires
        first != second,
    ensures
        decimal(first) != decimal(second),
{
    lemma_decimal_encoding(first);
    lemma_decimal_encoding(second);
    lemma_decimal_bytes_spell(first);
    lemma_decimal_bytes_spell(second);
}

/// The keys that successful `create` calls assign on a store that starts empty are `1`, `2`,
/// and so on, in the order of the calls, however many there are. No two of them are the same.
pub proof fn law_keys_count_up(
    stores: Seq<Map<Seq<u8>, Seq<u8>>>,
    data: Seq<TodoView>,
    items: Seq<TodoView>,
)
    requires
        is_run_of_creates(stores, data, items),
    ensures
        forall|i: int| 0 <= i < items.len() ==> (#[trigger] items[i]).key == decimal((i + 1) as nat),
        forall|i: int, j: int|
            0 <= i < j < items.len() ==> (#[trigger] items[i]).key != (#[trigger] items[j]).key,
{
    lemma_run_holds_keys(stores, data, items, items.len());
    assert forall|i: int, j: int| 0 <= i < j < items.len() implies (#[trigger] items[i]).key != (
    #[trigger] items[j]).key by {
        lemma_decimals_differ((i + 1) as nat, (j + 1) as nat);
    }
}

/// After the first `n` calls of a run of `create` calls, the store holds exactly the keys `1`
/// to `n`, and each of these calls has assigned its place in the run as the key.
proof fn lemma_run_holds_keys(
    stores: Seq<Map<Seq<u8>, Seq<u8>>>,
    data: Seq<TodoView>,
    items: Seq<TodoView>,
    n: nat,
)
    requires
        is_run_of_creates(stores, data, items),
        n <= items.len(),
    ensures
        holds_keys_up_to(stores[n as int], n),
        forall|i: int| 0 <= i < n ==> (#[trigger] items[i]).key == decimal((i + 1) as nat),
    decreases n,
{
    if n > 0 {
        let m = (n - 1) as nat;
        lemma_run_holds_keys(stores, data, items, m);
        assert(create_outcome(
            stores[m as int],
            stores[m as int + 1],
            data[m as int],
            Ok(items[m as int]),
        ));
        law_create_takes_next_key(
            stores[m as int],
            stores[m as int + 1],
            data[m as int],
            items[m as int],
            m,
        );
    }
}

/// A `create` writes over nothing: the key of the new item is none that the store held, every
/// record that the store held is still there as it was, and the new record is the one thing
/// added.
pub proof fn law_create_adds_one_record(
    before: Map<Seq<u8>, Seq<u8>>,
    after: Map<Seq<u8>, Seq<u8>>,
    data: TodoView,
    created: TodoView,
)
    requires
        create_outcome(before, after, data, Ok(created)),
    ensures
        !before.contains_key(key_bytes(created.key)),
        after.contains_key(key_bytes(created.key)),
        forall|key: Seq<u8>| #[trigger]
            before.contains_key(key) ==> after.contains_key(key) && after[key] == before[key],
        forall|key: Seq<u8>| #[trigger]
            after.contains_key(key) ==> before.contains_key(key) || key == key_bytes(created.key),
        after.remove(key_bytes(created.key)) == before,
{
    assert(after.remove(key_bytes(created.key)) =~= before);
}

/// A `delete` undoes a `create`: the delete of the key that `create` returned gives the
/// created item back and leaves the store as it was before the `create`, unless the store does
/// not accept it.
pub proof fn law_create_then_delete(
    before: Map<Seq<u8>, Seq<u8>>,
    after: Map<Seq<u8>, Seq<u8>>,
    last: Map<Seq<u8>, Seq<u8>>,
    data: TodoView,
    created: TodoView,
    deleted: Result<TodoView, TodoError>,
)
    requires
        create_outcome(before, after, data, Ok(created)),
        delete_outcome(after, last, created.key, deleted),
    ensures
        deleted == Err::<TodoView, TodoError>(TodoError::WriteFailed) || (deleted == Ok::<
            TodoView,
            TodoError,
        >(created) && last == before),
{
    law_create_adds_one_record(before, after, data, created);
}

/// What `replace` has stored, `fetch` finds under the key of the item, whether the store held
/// that key before or not: a fetch from the store as `replace` left it gives the item, unless
/// the store cannot be read.
pub proof fn law_replace_then_fetch(
    before: Map<Seq<u8>, Seq<u8>>,
    after: Map<Seq<u8>, Seq<u8>>,
    item: TodoView,
    found: Result<TodoView, TodoError>,
)
    requires
        replace_outcome(before, after, item, Ok(item)),
        fetch_outcome(after, item.key, found),
    ensures
        found == Ok::<TodoView, TodoError>(item) || found == Err::<TodoView, TodoError>(
            TodoError::StoreUnavailable,
        ),
{
}

/// An update needs a key: with a patch that has no text under `key`, whatever else it holds,
/// `update` fails with `MissingKey` and leaves the store as it was.
pub proof fn law_update_requires_key(
    before: Map<Seq<u8>, Seq<u8>>,
    after: Map<Seq<u8>, Seq<u8>>,
    patch: Json,
    r: Result<TodoView, TodoError>,
)
    requires
        patch_key(patch) is None,
        update_outcome(before, after, patch, r),
    ensures
        r == Err::<TodoView, TodoError>(TodoError::MissingKey),
        after == before,
{
}

/// What `delete` has taken out is gone: after a `delete` that the store accepted, a `fetch` of
/// the same key fails with `NotFound`, unless the store cannot be read, and so does a second
/// `delete`, unless the store does not accept it.
pub proof fn law_delete_removes(
    before: Map<Seq<u8>, Seq<u8>>,
    after: Map<Seq<u8>, Seq<u8>>,
    last: Map<Seq<u8>, Seq<u8>>,
    key: Seq<char>,
    deleted: Result<TodoView, TodoError>,
    found: Result<TodoView, TodoError>,
    again: Result<TodoView, TodoError>,
)
    requires
        delete_outcome(before, after, key, deleted),
        deleted != Err::<TodoView, TodoError>(TodoError::WriteFailed),
        fetch_outcome(after, key, found),
        delete_outcome(after, last, key, again),
    ensures
        found == Err::<TodoView, TodoError>(TodoError::NotFound) || found == Err::<
            TodoView,
            TodoError,
        >(TodoError::StoreUnavailable),
        again == Err::<TodoView, TodoError>(TodoError::NotFound) || again == Err::<
            TodoView,
            TodoError,
        >(TodoError::WriteFailed),
{
}

/// A value that stands for no item makes `fetch` fail with `DecodeFailed` on its own key, and
/// changes nothing of what `fetch` gives on any other key.
pub proof fn law_corrupt_record_is_local(
    entries: Map<Seq<u8>, Seq<u8>>,
    key: Seq<char>,
    value: Seq<u8>,
    other: Seq<char>,
)
    requires
        record_of(value) is None,
        other != key,
    ensures
        fetched(entries.insert(key_bytes(key), value), key) == Err::<TodoView, TodoError>(
            TodoError::DecodeFailed,
        ),
        fetched(entries.insert(key_bytes(key), value), other) == fetched(entries, other),
{
    lemma_key_bytes_differ(other, key);
}

/// The store is one that can be listed: it holds finitely many entries.
pub open spec fn can_be_listed(entries: Map<Seq<u8>, Seq<u8>>) -> bool {
    exists|listing: Seq<(Seq<u8>, Seq<u8>)>| is_listing_of(listing, entries)
}

/// Every entry that stands for an item stands for one with the key that it is stored under.
pub open spec fn keeps_items_under_their_keys(entries: Map<Seq<u8>, Seq<u8>>) -> bool {
    forall|key: Seq<u8>| #[trigger]
        entries.contains_key(key) ==> (record_of(entries[key]) matches Some(item) ==> key_bytes(
            item.key,
        ) == key)
}

/// A listing without one of its entries lists the store without the key of that entry.
proof fn lemma_listing_without(
    listing: Seq<(Seq<u8>, Seq<u8>)>,
    entries: Map<Seq<u8>, Seq<u8>>,
    at: int,
)
    requires
        is_listing_of(listing, entries),
        0 <= at < listing.len(),
    ensures
        is_listing_of(listing.remove(at), entries.remove(listing[at].0)),
{
    let rest = listing.remove(at);
    let left = entries.remove(listing[at].0);
    assert forall|key: Seq<u8>| #[trigger] left.contains_key(key) implies exists|i: int|
        0 <= i < rest.len() && (#[trigger] rest[i]).0 == key by {
        let a = choose|a: int| 0 <= a < listing.len() && (#[trigger] listing[a]).0 == key;
        let i = if a < at {
            a
        } else {
            a - 1
        };
        assert(rest[i] == listing[a]);
    }
}

/// An entry that stands for no item adds nothing to the items of a listing.
proof fn lemma_records_in_without(listing: Seq<(Seq<u8>, Seq<u8>)>, at: int)
    requires
        0 <= at < listing.len(),
        record_of(listing[at].1) is None,
    ensures
        records_in(listing.remove(at)) == records_in(listing),
    decreases listing.len(),
{
    if at < listing.len() - 1 {
        lemma_records_in_without(listing.drop_last(), at);
        assert(listing.remove(at).drop_last() == listing.drop_last().remove(at));
    }
}

/// Two items of a listing stand at two places of it, in the same order.
proof fn lemma_records_in_places(listing: Seq<(Seq<u8>, Seq<u8>)>, i: int, j: int) -> (places: (
    int,
    int,
))
    requires
        0 <= i < j < records_in(listing).len(),
    ensures
        0 <= places.0 < places.1 < listing.len(),
        record_of(listing[places.0].1) == Some(records_in(listing)[i]),
        record_of(listing[places.1].1) == Some(records_in(listing)[j]),
    decreases listing.len(),
{
    let front = listing.drop_last();
    if j < records_in(front).len() {
        lemma_records_in_places(front, i, j)
    } else {
        (lemma_records_in_place(front, i), listing.len() - 1)
    }
}

/// An item of a listing stands at a place of it.
proof fn lemma_records_in_place(listing: Seq<(Seq<u8>, Seq<u8>)>, i: int) -> (place: int)
    requires
        0 <= i < records_in(listing).len(),
    ensures
        0 <= place < listing.len(),
        record_of(listing[place].1) == Some(records_in(listing)[i]),
    decreases listing.len(),
{
    let front = listing.drop_last();
    if i < records_in(front).len() {
        lemma_records_in_place(front, i)
    } else {
        listing.len() - 1
    }
}

/// A list never holds more items than the limit allows: none for the limit 0, none from an
/// empty store, and all items of the store where the limit allows as many.
pub proof fn law_list_bounds(entries: Map<Seq<u8>, Seq<u8>>, limit: nat)
    ensures
        listed(entries, limit).len() <= limit,
        listed(entries, limit).len() <= records_in(listing_of(entries)).len(),
        listed(entries, limit) == records_in(listing_of(entries)).take(
            listed(entries, limit).len() as int,
        ),
        listed(entries, 0).len() == 0,
        listed(Map::<Seq<u8>, Seq<u8>>::empty(), limit).len() == 0,
        records_in(listing_of(entries)).len() <= limit ==> listed(entries, limit) == records_in(
            listing_of(entries),
        ),
{
    assert(is_listing_of(
        Seq::<(Seq<u8>, Seq<u8>)>::empty(),
        Map::<Seq<u8>, Seq<u8>>::empty(),
    ));
}

/// In a store that keeps its items under their keys, what `list` returns comes in ascending
/// dictionary order of the keys of its items.
pub proof fn law_list_ascends(
    entries: Map<Seq<u8>, Seq<u8>>,
    limit: nat,
    items: Seq<TodoView>,
    i: int,
    j: int,
)
    requires
        list_outcome(entries, limit, Ok(items)),
        keeps_items_under_their_keys(entries),
        0 <= i < j < items.len(),
    ensures
        bytes_lt(key_bytes(items[i].key), key_bytes(items[j].key)),
{
    lemma_records_in_places(listing_of(entries), i, j);
}

/// A value that stands for no item is passed over by `list`: the list is the one of the store
/// without that value.
pub proof fn law_list_skips_corrupt_record(
    entries: Map<Seq<u8>, Seq<u8>>,
    key: Seq<u8>,
    value: Seq<u8>,
    limit: nat,
)
    requires
        record_of(value) is None,
        can_be_listed(entries.insert(key, value)),
    ensures
        listed(entries.insert(key, value), limit) == listed(entries.remove(key), limit),
{
    let with = entries.insert(key, value);
    let listing = listing_of(with);
    assert(with.contains_key(key));
    let at = choose|at: int| 0 <= at < listing.len() && (#[trigger] listing[at]).0 == key;
    lemma_listing_without(listing, with, at);
    assert(with.remove(key) == entries.remove(key));
    lemma_listings_agree(listing.remove(at), listing_of(entries.remove(key)), entries.remove(key));
    lemma_records_in_without(listing, at);
}

/// The operations keep the items of a store under their keys: where every item was stored
/// under its own key before a `create`, an `update`, a `replace` or a `delete` that succeeded,
/// this holds afterwards too.
pub proof fn law_items_stay_under_their_keys(
    before: Map<Seq<u8>, Seq<u8>>,
    after: Map<Seq<u8>, Seq<u8>>,
    data: TodoView,
    patch: Json,
    key: Seq<char>,
    item: TodoView,
)
    requires
        keeps_items_under_their_keys(before),
        create_outcome(before, after, data, Ok(item)) || update_outcome(
            before,
            after,
            patch,
            Ok(item),
        ) || replace_outcome(before, after, data, Ok(item)) || (delete_outcome(
            before,
            after,
            key,
            Ok(item),
        )),
    ensures
        keeps_items_under_their_keys(after),
{
}

/// A patch that is an object changes a document field by field: a field that the patch does
/// not name stays as it is, one that the patch sets to `Null` goes, and any other field of
/// the patch is merged into the field of that name, which for a patch field that is no object
/// means that it takes its place.
pub proof fn law_merge_goes_field_by_field(doc: Json, patch: Json, name: Seq<char>)
    requires
        patch is Object,
    ensures
        !fields_of(patch).contains_key(name) ==> fields_of(merged(doc, patch)).contains_key(name)
            == fields_of(doc).contains_key(name),
        !fields_of(patch).contains_key(name) && fields_of(doc).contains_key(name) ==> fields_of(
            merged(doc, patch),
        )[name] == fields_of(doc)[name],
        fields_of(patch).contains_key(name) && fields_of(patch)[name] is Null ==> !fields_of(
            merged(doc, patch),
        ).contains_key(name),
        fields_of(patch).contains_key(name) && !(fields_of(patch)[name] is Null) ==> fields_of(
            merged(doc, patch),
        ).contains_key(name) && fields_of(merged(doc, patch))[name] == merged(
            field_or_null(doc, name),
            fields_of(patch)[name],
        ),
        fields_of(patch).contains_key(name) && !(fields_of(patch)[name] is Null) && !(fields_of(
            patch,
        )[name] is Object) ==> fields_of(merged(doc, patch))[name] == fields_of(patch)[name],
{
}

/// A patch that is no object takes the place of the document.
pub proof fn law_merge_of_a_scalar_replaces(doc: Json, patch: Json)
    requires
        !(patch is Object),
    ensures
        merged(doc, patch) == patch,
{
}

/// An update keeps what its patch does not name: a patch that names neither title nor
/// timestamp nor status leaves the stored item as it is, under the key of the record.
pub proof fn law_update_keeps_untouched_fields(stored: TodoView, patch: Json, key: Seq<char>)
    requires
        patch is Object,
        !fields_of(patch).contains_key(title_field()),
        !fields_of(patch).contains_key(timestamp_field()),
        !fields_of(patch).contains_key(status_field()),
    ensures
        patched(item_json(stored), patch, key) == Some(TodoView { key, ..stored }),
{
    lemma_field_names_differ();
    lemma_status_name_read_back(stored.status);
}

/// An update changes what its patch names: with a text as the title, a whole number as the
/// timestamp and the name of a status as the status, each where the patch names it, the item
/// takes these and keeps the rest, under the key of the record.
pub proof fn law_update_takes_named_fields(
    stored: TodoView,
    patch: Json,
    key: Seq<char>,
    title: Seq<char>,
    timestamp: i64,
    status: TodoStatus,
)
    requires
        patch is Object,
        fields_of(patch).contains_key(title_field()) ==> fields_of(patch)[title_field()]
            == Json::Text(title),
        fields_of(patch).contains_key(timestamp_field()) ==> fields_of(patch)[timestamp_field()]
            == Json::Integer(timestamp as int),
        fields_of(patch).contains_key(status_field()) ==> fields_of(patch)[status_field()]
            == Json::Text(status_name(status)),
    ensures
        patched(item_json(stored), patch, key) == Some(
            TodoView {
                key,
                title: if fields_of(patch).contains_key(title_field()) {
                    title
                } else {
                    stored.title
                },
                timestamp: if fields_of(patch).contains_key(timestamp_field()) {
                    timestamp
                } else {
                    stored.timestamp
                },
                status: if fields_of(patch).contains_key(status_field()) {
                    status
                } else {
                    stored.status
                },
            },
        ),
{
    lemma_field_names_differ();
    lemma_status_name_read_back(stored.status);
    lemma_status_name_read_back(status);
    let doc = item_json(stored);
    assert(merged(field_or_null(doc, title_field()), Json::Text(title)) == Json::Text(title));
    assert(merged(field_or_null(doc, timestamp_field()), Json::Integer(timestamp as int))
        == Json::Integer(timestamp as int));
    assert(merged(field_or_null(doc, status_field()), Json::Text(status_name(status)))
        == Json::Text(status_name(status)));
}

/// An update that takes a needed field away fails: a patch that sets the title, the timestamp
/// or the status to `Null` leaves a document that is no item.
pub proof fn law_update_cannot_drop_a_field(stored: Json, patch: Json, key: Seq<char>)
    requires
        patch is Object,
        (fields_of(patch).contains_key(title_field()) && fields_of(patch)[title_field()] is Null)
            || (fields_of(patch).contains_key(timestamp_field()) && fields_of(
            patch,
        )[timestamp_field()] is Null) || (fields_of(patch).contains_key(status_field())
            && fields_of(patch)[status_field()] is Null),
    ensures
        patched(stored, patch, key) is None,
{
    lemma_field_names_differ();
}

/// An update of an item that the store holds merges the patch into it and keeps the key: on a
/// store that holds `stored` under its key as `create`, `update` or `replace` write it, an
/// update by a patch that names this key and gives, where it names them, a text as the title, a
/// whole number as the timestamp and the name of a status as the status, returns the item with
/// these fields changed and the others kept, unless the store fails.
pub proof fn law_update_merges_into_the_stored_item(
    before: Map<Seq<u8>, Seq<u8>>,
    after: Map<Seq<u8>, Seq<u8>>,
    stored: TodoView,
    patch: Json,
    title: Seq<char>,
    timestamp: i64,
    status: TodoStatus,
    r: Result<TodoView, TodoError>,
)
    requires
        before.contains_key(key_bytes(stored.key)),
        before[key_bytes(stored.key)] == record_bytes(stored),
        reads_back(stored),
        patch_key(patch) == Some(stored.key),
        fields_of(patch).contains_key(title_field()) ==> fields_of(patch)[title_field()]
            == Json::Text(title),
        fields_of(patch).contains_key(timestamp_field()) ==> fields_of(patch)[timestamp_field()]
            == Json::Integer(timestamp as int),
        fields_of(patch).contains_key(status_field()) ==> fields_of(patch)[status_field()]
            == Json::Text(status_name(status)),
        update_outcome(before, after, patch, r),
    ensures
        r == Err::<TodoView, TodoError>(TodoError::StoreUnavailable) || r == Err::<
            TodoView,
            TodoError,
        >(TodoError::WriteFailed) || r == Ok::<TodoView, TodoError>(
            TodoView {
                key: stored.key,
                title: if fields_of(patch).contains_key(title_field()) {
                    title
                } else {
                    stored.title
                },
                timestamp: if fields_of(patch).contains_key(timestamp_field()) {
                    timestamp
                } else {
                    stored.timestamp
                },
                status: if fields_of(patch).contains_key(status_field()) {
                    status
                } else {
                    stored.status
                },
            },
        ),
{
    law_update_takes_named_fields(stored, patch, stored.key, title, timestamp, status);
}

} // verus!
