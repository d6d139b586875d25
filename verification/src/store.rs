//! The store: an ordered map of byte strings, kept by a `sled` database.

use crate::error::TodoError;
use vstd::prelude::*;

verus! {

#[verifier::external_type_specification]
#[verifier::external_body]
pub struct ExDb(sled::Db);

#[verifier::external_type_specification]
#[verifier::external_body]
pub struct ExDbError(sled::Error);

/// What a database holds: each key with the value stored under it.
pub uninterp spec fn entries_of(db: sled::Db) -> Map<Seq<u8>, Seq<u8>>;

/// Byte strings in dictionary order: `a` comes strictly before `b` when `a` is a proper prefix
/// of `b`, or when the first byte in which they differ is smaller in `a`.
pub open spec fn bytes_lt(a: Seq<u8>, b: Seq<u8>) -> bool {
    exists|i: int| #[trigger] differ_at(a, b, i) && (i == a.len() || a[i] < b[i])
}

/// `a` and `b` agree on their first `i` bytes, and `b` goes on beyond them; `a` either ends
/// there or goes on with another byte than `b`.
pub open spec fn differ_at(a: Seq<u8>, b: Seq<u8>, i: int) -> bool {
    &&& 0 <= i <= a.len()
    &&& i < b.len()
    &&& a.subrange(0, i) == b.subrange(0, i)
    &&& i < a.len() ==> a[i] != b[i]
}

/// `key` is a key of `entries` and no key of `entries` comes after it.
pub open spec fn is_last_key(entries: Map<Seq<u8>, Seq<u8>>, key: Seq<u8>) -> bool {
    &&& entries.contains_key(key)
    &&& forall|other: Seq<u8>| #[trigger]
        entries.contains_key(other) ==> other == key || bytes_lt(other, key)
}

/// `listing` holds each entry of `entries` once, in ascending order of the keys.
pub open spec fn is_listing_of(
    listing: Seq<(Seq<u8>, Seq<u8>)>,
    entries: Map<Seq<u8>, Seq<u8>>,
) -> bool {
    &&& forall|i: int, j: int|
        0 <= i < j < listing.len() ==> bytes_lt((#[trigger] listing[i]).0, (#[trigger] listing[j]).0)
    &&& forall|i: int|
        0 <= i < listing.len() ==> entries.contains_key((#[trigger] listing[i]).0)
            && entries[listing[i].0] == listing[i].1
    &&& forall|key: Seq<u8>| #[trigger]
        entries.contains_key(key) ==> exists|i: int|
            0 <= i < listing.len() && (#[trigger] listing[i]).0 == key
}

/// The entries that `pairs` holds, as plain byte strings.
pub open spec fn pairs_view(pairs: Seq<(Vec<u8>, Vec<u8>)>) -> Seq<(Seq<u8>, Seq<u8>)> {
    Seq::new(pairs.len(), |i: int| (pairs[i].0@, pairs[i].1@))
}

/// The value under `key` in `entries`, if there is one.
pub open spec fn lookup(entries: Map<Seq<u8>, Seq<u8>>, key: Seq<u8>) -> Option<Seq<u8>> {
    if entries.contains_key(key) {
        Some(entries[key])
    } else {
        None
    }
}

/// The bytes that `found` holds, if any.
pub open spec fn found_view(found: Option<Vec<u8>>) -> Option<Seq<u8>> {
    match found {
        Some(bytes) => Some(bytes@),
        None => None,
    }
}

/// Calls `sled::Tree::get` on the default tree of `db`. The contract claims that a successful
/// call returns the value that the database holds under `key`, and `None` when it holds none.
#[verifier::external_body]
fn db_get(db: &sled::Db, key: &[u8]) -> (r: Result<Option<Vec<u8>>, sled::Error>)
    ensures
        r matches Ok(found) ==> found_view(found) == lookup(entries_of(*db), key@),
{
    db.get(key).map(|found| found.map(|value| value.to_vec()))
}

/// Calls `sled::Tree::insert` on the default tree of `db`. The contract claims that after a
/// successful call the database holds `value` under `key` and everything else as before.
/// Nothing is claimed of a call that fails.
#[verifier::external_body]
fn db_insert(db: &mut sled::Db, key: &[u8], value: Vec<u8>) -> (r: Result<(), sled::Error>)
    ensures
        r is Ok ==> entries_of(*final(db)) == entries_of(*old(db)).insert(key@, value@),
{
    db.insert(key, value).map(|_| ())
}

/// Calls `sled::Tree::remove` on the default tree of `db`. The contract claims that a
/// successful call returns the value that the database held under `key`, if any, and leaves the
/// database without that key and otherwise as before. Nothing is claimed of a call that fails.
#[verifier::external_body]
fn db_remove(db: &mut sled::Db, key: &[u8]) -> (r: Result<Option<Vec<u8>>, sled::Error>)
    ensures
        r matches Ok(found) ==> found_view(found) == lookup(entries_of(*old(db)), key@)
            && entries_of(*final(db)) == entries_of(*old(db)).remove(key@),
{
    db.remove(key).map(|found| found.map(|value| value.to_vec()))
}

/// Walks `sled::Tree::iter` on the default tree of `db` to its end. The contract claims that,
/// when no step fails, the entries come out once each, in ascending dictionary order of the
/// keys.
#[verifier::external_body]
fn db_entries(db: &sled::Db) -> (r: Result<Vec<(Vec<u8>, Vec<u8>)>, sled::Error>)
    ensures
        r matches Ok(pairs) ==> is_listing_of(pairs_view(pairs@), entries_of(*db)),
{
    db.iter().map(|step| step.map(|entry| (entry.0.to_vec(), entry.1.to_vec()))).collect()
}

/// An ordered store of byte strings under byte-string keys, kept by a `sled` database.
///
/// Its view is what it holds. The contracts describe a store that no other handle writes to
/// in the meantime.
#[derive(Debug)]
pub struct Store {
    db: sled::Db,
}

impl View for Store {
    type V = Map<Seq<u8>, Seq<u8>>;

    closed spec fn view(&self) -> Map<Seq<u8>, Seq<u8>> {
        entries_of(self.db)
    }
}

impl Store {
    /// A store over the default tree of `db`.
    pub fn new(db: sled::Db) -> (store: Store)
        ensures
            store@ == entries_of(db),
    {
        Store { db }
    }

    /// The value under `key`, if any. Fails with `StoreUnavailable` when the database cannot be
    /// read.
    pub fn get(&self, key: &[u8]) -> (r: Result<Option<Vec<u8>>, TodoError>)
        ensures
            match r {
                Ok(found) => found_view(found) == lookup(self@, key@),
                Err(e) => e == TodoError::StoreUnavailable,
            },
    {
        match db_get(&self.db, key) {
            Ok(found) => Ok(found),
            Err(_) => Err(TodoError::StoreUnavailable),
        }
    }

    /// Puts `value` under `key`, in place of what was there. Fails with `WriteFailed` when the
    /// database does not accept the write; what the store then holds is not known.
    pub fn insert(&mut self, key: &[u8], value: Vec<u8>) -> (r: Result<(), TodoError>)
        ensures
            match r {
                Ok(_) => final(self)@ == old(self)@.insert(key@, value@),
                Err(e) => e == TodoError::WriteFailed,
            },
    {
        match db_insert(&mut self.db, key, value) {
            Ok(_) => Ok(()),
            Err(_) => Err(TodoError::WriteFailed),
        }
    }

    /// Takes out what is under `key` and returns it, if there was anything. Fails with
    /// `WriteFailed` when the database does not accept the write; what the store then holds is
    /// not known.
    pub fn remove(&mut self, key: &[u8]) -> (r: Result<Option<Vec<u8>>, TodoError>)
        ensures
            match r {
                Ok(found) => found_view(found) == lookup(old(self)@, key@) && final(self)@ == old(
                    self,
                )@.remove(key@),
                Err(e) => e == TodoError::WriteFailed,
            },
    {
        match db_remove(&mut self.db, key) {
            Ok(found) => Ok(found),
            Err(_) => Err(TodoError::WriteFailed),
        }
    }

    /// All entries, in ascending dictionary order of the keys. Fails with `StoreUnavailable`
    /// when the database cannot be read to its end.
    pub fn entries(&self) -> (r: Result<Vec<(Vec<u8>, Vec<u8>)>, TodoError>)
        ensures
            match r {
                Ok(pairs) => is_listing_of(pairs_view(pairs@), self@) && pairs_view(pairs@)
                    == listing_of(self@),
                Err(e) => e == TodoError::StoreUnavailable,
            },
    {
        match db_entries(&self.db) {
            Ok(pairs) => {
                proof {
                    lemma_listings_agree(pairs_view(pairs@), listing_of(self@), self@);
                }
                Ok(pairs)
            },
            Err(_) => Err(TodoError::StoreUnavailable),
        }
    }
}

/// Of two different byte strings at most one comes before the other.
pub proof fn lemma_bytes_lt_asymmetric(a: Seq<u8>, b: Seq<u8>)
    requires
        bytes_lt(a, b),
    ensures
        !bytes_lt(b, a),
        a != b,
{
    let i = choose|i: int| #[trigger] differ_at(a, b, i) && (i == a.len() || a[i] < b[i]);
    if bytes_lt(b, a) {
        let j = choose|j: int| #[trigger] differ_at(b, a, j) && (j == b.len() || b[j] < a[j]);
        if i < j {
            assert(b.subrange(0, j)[i] == a.subrange(0, j)[i]);
        } else if j < i {
            assert(a.subrange(0, i)[j] == b.subrange(0, i)[j]);
        }
    }
}

/// A store has at most one last key.
pub proof fn lemma_last_keys_agree(entries: Map<Seq<u8>, Seq<u8>>, key: Seq<u8>, other: Seq<u8>)
    requires
        is_last_key(entries, key),
        is_last_key(entries, other),
    ensures
        key == other,
{
    if other != key {
        lemma_bytes_lt_asymmetric(other, key);
    }
}

/// The entries of a store in ascending dictionary order of the keys.
pub open spec fn listing_of(entries: Map<Seq<u8>, Seq<u8>>) -> Seq<(Seq<u8>, Seq<u8>)> {
    choose|listing: Seq<(Seq<u8>, Seq<u8>)>| is_listing_of(listing, entries)
}

/// The last entry of a listing holds the last key of the store.
pub proof fn lemma_listing_ends_with_last_key(
    listing: Seq<(Seq<u8>, Seq<u8>)>,
    entries: Map<Seq<u8>, Seq<u8>>,
)
    requires
        is_listing_of(listing, entries),
        listing.len() > 0,
    ensures
        is_last_key(entries, listing.last().0),
{
}

/// A listing without its last entry lists the store without its last key.
pub proof fn lemma_listing_drop_last(
    listing: Seq<(Seq<u8>, Seq<u8>)>,
    entries: Map<Seq<u8>, Seq<u8>>,
)
    requires
        is_listing_of(listing, entries),
        listing.len() > 0,
    ensures
        is_listing_of(listing.drop_last(), entries.remove(listing.last().0)),
{
    let front = listing.drop_last();
    let rest = entries.remove(listing.last().0);
    assert forall|key: Seq<u8>| #[trigger] rest.contains_key(key) implies exists|i: int|
        0 <= i < front.len() && (#[trigger] front[i]).0 == key by {
        let i = choose|i: int| 0 <= i < listing.len() && (#[trigger] listing[i]).0 == key;
        assert(front[i] == listing[i]);
    }
}

/// Two listings of one store are the same.
pub proof fn lemma_listings_agree(
    first: Seq<(Seq<u8>, Seq<u8>)>,
    second: Seq<(Seq<u8>, Seq<u8>)>,
    entries: Map<Seq<u8>, Seq<u8>>,
)
    requires
        is_listing_of(first, entries),
        is_listing_of(second, entries),
    ensures
        first == second,
    decreases first.len(),
{
    if first.len() == 0 {
        if second.len() > 0 {
            assert(entries.contains_key(second[0].0));
        }
    } else {
        lemma_listing_ends_with_last_key(first, entries);
        lemma_listing_ends_with_last_key(second, entries);
        lemma_last_keys_agree(entries, first.last().0, second.last().0);
        lemma_listing_drop_last(first, entries);
        lemma_listing_drop_last(second, entries);
        lemma_listings_agree(first.drop_last(), second.drop_last(), entries.remove(first.last().0));
        assert(second == second.drop_last().push(second.last()));
    }
}

} // verus!
