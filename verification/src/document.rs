//! Structured documents and the merge of a patch into a document.

use vstd::prelude::*;

verus! {

/// The mathematical value of a structured document.
pub enum Json {
    Null,
    Bool(bool),
    Integer(int),
    Text(Seq<char>),
    Array(Seq<Json>),
    Object(Map<Seq<char>, Json>),
}

/// The fields of a document seen as an object: those of an object, none for anything else.
pub open spec fn fields_of(doc: Json) -> Map<Seq<char>, Json> {
    match doc {
        Json::Object(fields) => fields,
        _ => Map::empty(),
    }
}

/// The field `key` of `doc`, or `Null` where `doc` has no such field.
pub open spec fn field_or_null(doc: Json, key: Seq<char>) -> Json {
    if fields_of(doc).contains_key(key) {
        fields_of(doc)[key]
    } else {
        Json::Null
    }
}

/// The result of merging `patch` into `doc`. A patch that is no object takes the place of
/// `doc`. A patch that is an object changes `doc` field by field, after `doc` has given way to
/// an empty object if it was none: a field that the patch sets to `Null` goes, any other field
/// of the patch is merged into the field of that name, and the fields that the patch does not
/// name stay as they are.
pub open spec fn merged(doc: Json, patch: Json) -> Json
    decreases patch,
{
    match patch {
        Json::Object(changes) => Json::Object(
            Map::new(
                |k: Seq<char>|
                    if changes.contains_key(k) {
                        !(changes[k] is Null)
                    } else {
                        fields_of(doc).contains_key(k)
                    },
                |k: Seq<char>|
                    if changes.contains_key(k) {
                        merged(field_or_null(doc, k), changes[k])
                    } else {
                        fields_of(doc)[k]
                    },
            ),
        ),
        _ => patch,
    }
}

/// A structured document: a scalar, a list of documents, or an object of named fields.
///
/// An object keeps its fields in a list. Where a name occurs more than once, the last
/// occurrence counts.
#[derive(Debug)]
pub enum Document {
    Null,
    Bool(bool),
    Integer(i64),
    Text(String),
    Array(Vec<Document>),
    Object(Vec<(String, Document)>),
}

/// The fields that a list of named documents stands for: each name with the value of its last
/// occurrence.
pub open spec fn fields_view(fields: Seq<(String, Document)>) -> Map<Seq<char>, Json>
    decreases fields,
{
    if fields.len() == 0 {
        Map::empty()
    } else {
        fields_view(fields.drop_last()).insert(fields.last().0@, fields.last().1.view())
    }
}

impl Document {
    /// The value of this document.
    pub open spec fn view(&self) -> Json
        decreases self,
    {
        match self {
            Document::Null => Json::Null,
            Document::Bool(b) => Json::Bool(*b),
            Document::Integer(n) => Json::Integer(*n as int),
            Document::Text(s) => Json::Text(s@),
            Document::Array(items) => Json::Array(
                Seq::new(
                    items.len() as nat,
                    |i: int|
                        if 0 <= i < items.len() {
                            items[i].view()
                        } else {
                            Json::Null
                        },
                ),
            ),
            Document::Object(fields) => Json::Object(fields_view(fields@)),
        }
    }

    /// No object of this document, at any level, names a field twice.
    pub open spec fn has_unique_names(&self) -> bool
        decreases self,
    {
        match self {
            Document::Array(items) => forall|i: int|
                0 <= i < items.len() ==> (#[trigger] items[i]).has_unique_names(),
            Document::Object(fields) => names_differ(fields@) && forall|i: int|
                0 <= i < fields.len() ==> (#[trigger] fields[i]).1.has_unique_names(),
            _ => true,
        }
    }
}

/// No name occurs twice in `fields`.
pub open spec fn names_differ(fields: Seq<(String, Document)>) -> bool {
    forall|i: int, j: int|
        0 <= i < j < fields.len() ==> (#[trigger] fields[i]).0@ != (#[trigger] fields[j]).0@
}

/// `i` is the last place in `fields` that holds the name `key`.
pub open spec fn is_last_at(fields: Seq<(String, Document)>, key: Seq<char>, i: int) -> bool {
    &&& 0 <= i < fields.len()
    &&& fields[i].0@ == key
    &&& forall|j: int| i < j < fields.len() ==> (#[trigger] fields[j]).0@ != key
}

/// No place in `fields` holds the name `key`.
pub open spec fn is_absent(fields: Seq<(String, Document)>, key: Seq<char>) -> bool {
    forall|j: int| 0 <= j < fields.len() ==> (#[trigger] fields[j]).0@ != key
}

/// One more named document at the end of a list sets that name and leaves the others.
pub proof fn lemma_fields_view_push(fields: Seq<(String, Document)>, entry: (String, Document))
    ensures
        fields_view(fields.push(entry)) == fields_view(fields).insert(entry.0@, entry.1@),
{
    assert(fields.push(entry).drop_last() == fields);
}

/// A name that occurs nowhere in a list is no field of it.
pub proof fn lemma_fields_view_absent(fields: Seq<(String, Document)>, key: Seq<char>)
    requires
        is_absent(fields, key),
    ensures
        !fields_view(fields).contains_key(key),
    decreases fields.len(),
{
    if fields.len() > 0 {
        lemma_fields_view_absent(fields.drop_last(), key);
    }
}

/// A name stands for the value at its last occurrence in a list.
pub proof fn lemma_fields_view_at(fields: Seq<(String, Document)>, key: Seq<char>, i: int)
    requires
        is_last_at(fields, key, i),
    ensures
        fields_view(fields).contains_key(key),
        fields_view(fields)[key] == fields[i].1@,
    decreases fields.len(),
{
    if i < fields.len() - 1 {
        lemma_fields_view_at(fields.drop_last(), key, i);
    }
}

/// A field of a list occurs in it, and so has a last occurrence.
pub proof fn lemma_fields_view_has(fields: Seq<(String, Document)>, key: Seq<char>) -> (i: int)
    requires
        fields_view(fields).contains_key(key),
    ensures
        is_last_at(fields, key, i),
    decreases fields.len(),
{
    if fields.last().0@ == key {
        fields.len() - 1
    } else {
        let i = lemma_fields_view_has(fields.drop_last(), key);
        assert forall|j: int| i < j < fields.len() implies (#[trigger] fields[j]).0@ != key by {
            if j < fields.len() - 1 {
                assert(fields.drop_last()[j] == fields[j]);
            }
        }
        i
    }
}

impl Clone for Document {
    fn clone(&self) -> (copy: Self)
        ensures
            copy@ == self@,
    {
        self.deep_clone()
    }
}

/// The last place in `fields` that holds the name `key`, if it occurs at all.
pub fn find_last(fields: &Vec<(String, Document)>, key: &String) -> (r: Option<usize>)
    ensures
        match r {
            Some(i) => is_last_at(fields@, key@, i as int),
            None => is_absent(fields@, key@),
        },
{
    let mut found: Option<usize> = None;
    let mut i: usize = 0;
    while i < fields.len()
        invariant
            i <= fields.len(),
            match found {
                Some(at) => is_last_at(fields@.take(i as int), key@, at as int),
                None => is_absent(fields@.take(i as int), key@),
            },
        decreases fields.len() - i,
    {
        if fields[i].0 == *key {
            found = Some(i);
        }
        i = i + 1;
    }
    assert(fields@.take(i as int) == fields@);
    found
}

impl Document {
    /// A copy of this document.
    #[verifier::loop_isolation(false)]
    pub fn deep_clone(&self) -> (copy: Document)
        ensures
            copy@ == self@,
        decreases self,
    {
        match self {
            Document::Null => Document::Null,
            Document::Bool(b) => Document::Bool(*b),
            Document::Integer(n) => Document::Integer(*n),
            Document::Text(s) => Document::Text(s.clone()),
            Document::Array(items) => {
                let mut out: Vec<Document> = Vec::new();
                let mut i: usize = 0;
                while i < items.len()
                    invariant
                        i <= items.len(),
                        out.len() == i,
                        forall|j: int| 0 <= j < i ==> (#[trigger] out[j])@ == items[j]@,
                    decreases items.len() - i,
                {
                    let item = items[i].deep_clone();
                    out.push(item);
                    i = i + 1;
                }
                let copy = Document::Array(out);
                assert(copy@ =~= self@) by {
                    assert(copy@->Array_0 =~= self@->Array_0);
                }
                copy
            },
            Document::Object(fields) => {
                let mut out: Vec<(String, Document)> = Vec::new();
                let mut i: usize = 0;
                while i < fields.len()
                    invariant
                        i <= fields.len(),
                        fields_view(out@) == fields_view(fields@.take(i as int)),
                    decreases fields.len() - i,
                {
                    let name = fields[i].0.clone();
                    let value = fields[i].1.deep_clone();
                    proof {
                        lemma_fields_view_push(out@, (name, value));
                        lemma_fields_view_push(fields@.take(i as int), fields@[i as int]);
                        assert(fields@.take(i as int).push(fields@[i as int]) == fields@.take(
                            i + 1,
                        ));
                    }
                    out.push((name, value));
                    i = i + 1;
                }
                assert(fields@.take(i as int) == fields@);
                Document::Object(out)
            },
        }
    }

    /// This document without the occurrences of a name that do not count: in every object, at
    /// every level, only the last occurrence of each name stays. The value is the same.
    #[verifier::loop_isolation(false)]
    pub fn without_repeats(&self) -> (r: Document)
        ensures
            r@ == self@,
            r.has_unique_names(),
        decreases self,
    {
        match self {
            Document::Null => Document::Null,
            Document::Bool(b) => Document::Bool(*b),
            Document::Integer(n) => Document::Integer(*n),
            Document::Text(s) => Document::Text(s.clone()),
            Document::Array(items) => {
                let mut out: Vec<Document> = Vec::new();
                let mut i: usize = 0;
                while i < items.len()
                    invariant
                        i <= items.len(),
                        out.len() == i,
                        forall|j: int| 0 <= j < i ==> (#[trigger] out[j])@ == items[j]@,
                        forall|j: int| 0 <= j < i ==> (#[trigger] out[j]).has_unique_names(),
                    decreases items.len() - i,
                {
                    let item = items[i].without_repeats();
                    out.push(item);
                    i = i + 1;
                }
                let r = Document::Array(out);
                assert(r@->Array_0 =~= self@->Array_0);
                r
            },
            Document::Object(fields) => {
                let mut out: Vec<(String, Document)> = Vec::new();
                let ghost mut from: Seq<int> = Seq::empty();
                let mut i: usize = 0;
                while i < fields.len()
                    invariant
                        i <= fields.len(),
                        from.len() == out.len(),
                        forall|a: int|
                            0 <= a < out.len() ==> 0 <= from[a] < i && is_last_at(
                                fields@,
                                (#[trigger] out[a]).0@,
                                from[a],
                            ) && out[a].1@ == fields[from[a]].1@ && out[a].1.has_unique_names(),
                        forall|a: int, b: int|
                            0 <= a < b < out.len() ==> (#[trigger] from[a]) < (#[trigger] from[b]),
                        forall|j: int|
                            0 <= j < i && is_last_at(fields@, (#[trigger] fields[j]).0@, j)
                                ==> exists|a: int| 0 <= a < out.len() && #[trigger] from[a] == j,
                    decreases fields.len() - i,
                {
                    let ghost had = from;
                    let last = find_last(fields, &fields[i].0);
                    if last == Some(i) {
                        let entry = (fields[i].0.clone(), fields[i].1.without_repeats());
                        out.push(entry);
                        proof {
                            from = from.push(i as int);
                        }
                    }
                    proof {
                        assert forall|j: int|
                            0 <= j < i + 1 && is_last_at(
                                fields@,
                                (#[trigger] fields[j]).0@,
                                j,
                            ) implies exists|a: int| 0 <= a < out.len() && #[trigger] from[a]
                            == j by {
                            if j < i {
                                let a = choose|a: int| 0 <= a < had.len() && #[trigger] had[a] == j;
                                assert(from[a] == j);
                            } else {
                                assert(last == Some(i));
                                assert(from[out.len() - 1] == j);
                            }
                        }
                    }
                    i = i + 1;
                }
                proof {
                    assert forall|a: int, b: int| 0 <= a < b < out.len() implies (#[trigger] out@[a]).0@
                        != (#[trigger] out@[b]).0@ by {
                        assert(from[a] < from[b]);
                        assert(is_last_at(fields@, out[a].0@, from[a]));
                        assert(is_last_at(fields@, out[b].0@, from[b]));
                    }
                    assert forall|key: Seq<char>| #[trigger]
                        fields_view(fields@).dom().contains(key) implies fields_view(
                        out@,
                    ).dom().contains(key) && fields_view(out@)[key] == fields_view(fields@)[key] by {
                        let j = lemma_fields_view_has(fields@, key);
                        lemma_fields_view_at(fields@, key, j);
                        assert(is_last_at(fields@, fields[j].0@, j));
                        let a = choose|a: int| 0 <= a < out.len() && #[trigger] from[a] == j;
                        assert(is_last_at(fields@, out[a].0@, from[a]));
                        assert(is_last_at(out@, key, a));
                        lemma_fields_view_at(out@, key, a);
                    }
                    assert forall|key: Seq<char>| #[trigger]
                        fields_view(out@).dom().contains(key) implies fields_view(
                        fields@,
                    ).dom().contains(key) by {
                        let a = lemma_fields_view_has(out@, key);
                        assert(is_last_at(fields@, out[a].0@, from[a]));
                        lemma_fields_view_at(fields@, key, from[a]);
                    }
                    assert(fields_view(out@) =~= fields_view(fields@));
                }
                Document::Object(out)
            },
        }
    }

    /// The field `key` of this document, if it is an object that has one.
    pub fn get(&self, key: &String) -> (r: Option<&Document>)
        ensures
            match r {
                Some(value) => fields_of(self@).contains_key(key@) && fields_of(self@)[key@]
                    == value@,
                None => !fields_of(self@).contains_key(key@),
            },
    {
        match self {
            Document::Object(fields) => match find_last(fields, key) {
                Some(i) => {
                    proof {
                        lemma_fields_view_at(fields@, key@, i as int);
                    }
                    Some(&fields[i].1)
                },
                None => {
                    proof {
                        lemma_fields_view_absent(fields@, key@);
                    }
                    None
                },
            },
            _ => None,
        }
    }

    /// This document with the field `key` set to `value`. A document that is no object gives
    /// way to an empty object first.
    pub fn with_field(self, key: String, value: Document) -> (r: Document)
        ensures
            r@ == Json::Object(fields_of(self@).insert(key@, value@)),
    {
        let mut fields: Vec<(String, Document)> = match self {
            Document::Object(fields) => fields,
            _ => Vec::new(),
        };
        proof {
            lemma_fields_view_push(fields@, (key, value));
        }
        fields.push((key, value));
        Document::Object(fields)
    }

    /// The text of this document, if it is a text.
    pub fn as_text(&self) -> (r: Option<&String>)
        ensures
            match r {
                Some(text) => self@ == Json::Text(text@),
                None => !(self@ is Text),
            },
    {
        match self {
            Document::Text(text) => Some(text),
            _ => None,
        }
    }

    /// The number of this document, if it is an integer.
    pub fn as_integer(&self) -> (r: Option<i64>)
        ensures
            match r {
                Some(n) => self@ == Json::Integer(n as int),
                None => !(self@ is Integer),
            },
    {
        match self {
            Document::Integer(n) => Some(*n),
            _ => None,
        }
    }

    /// Whether this document is `Null`.
    pub fn is_null(&self) -> (r: bool)
        ensures
            r == (self@ is Null),
    {
        match self {
            Document::Null => true,
            _ => false,
        }
    }
}

/// What merging the changes into the fields `base` makes of the fields that `base` has.
spec fn kept(base: Map<Seq<char>, Json>, changes: Map<Seq<char>, Json>) -> Map<Seq<char>, Json> {
    Map::new(
        |k: Seq<char>| base.contains_key(k) && (changes.contains_key(k) ==> !(changes[k] is Null)),
        |k: Seq<char>|
            if changes.contains_key(k) {
                merged(base[k], changes[k])
            } else {
                base[k]
            },
    )
}

/// What merging the changes into the fields `base` gives, without the fields that only a
/// change at place `n` or later brings.
spec fn merged_upto(base: Map<Seq<char>, Json>, changes: Seq<(String, Document)>, n: int) -> Map<
    Seq<char>,
    Json,
> {
    let named = fields_view(changes);
    Map::new(
        |k: Seq<char>|
            if named.contains_key(k) {
                !(named[k] is Null) && (base.contains_key(k) || exists|j: int|
                    j < n && #[trigger] is_last_at(changes, k, j))
            } else {
                base.contains_key(k)
            },
        |k: Seq<char>|
            if named.contains_key(k) {
                merged(
                    if base.contains_key(k) {
                        base[k]
                    } else {
                        Json::Null
                    },
                    named[k],
                )
            } else {
                base[k]
            },
    )
}

/// The document that merging `patch` into `doc` gives.
#[verifier::loop_isolation(false)]
pub fn merged_document(doc: &Document, patch: &Document) -> (r: Document)
    ensures
        r@ == merged(doc@, patch@),
    decreases patch,
{
    let changes: &Vec<(String, Document)> = match patch {
        Document::Object(changes) => changes,
        _ => {
            return patch.deep_clone();
        },
    };
    let none: Vec<(String, Document)> = Vec::new();
    let base: &Vec<(String, Document)> = match doc {
        Document::Object(fields) => fields,
        _ => &none,
    };
    let ghost named = fields_view(changes@);
    let ghost held = fields_view(base@);
    let mut out: Vec<(String, Document)> = Vec::new();
    let mut i: usize = 0;
    while i < base.len()
        invariant
            i <= base.len(),
            fields_view(out@) == kept(fields_view(base@.take(i as int)), named),
        decreases base.len() - i,
    {
        let ghost name = base@[i as int].0@;
        proof {
            lemma_fields_view_push(base@.take(i as int), base@[i as int]);
            assert(base@.take(i as int).push(base@[i as int]) == base@.take(i + 1));
        }
        match find_last(changes, &base[i].0) {
            None => {
                let entry = (base[i].0.clone(), base[i].1.deep_clone());
                proof {
                    lemma_fields_view_absent(changes@, name);
                    lemma_fields_view_push(out@, entry);
                }
                out.push(entry);
            },
            Some(j) => {
                proof {
                    lemma_fields_view_at(changes@, name, j as int);
                }
                if !changes[j].1.is_null() {
                    let entry = (base[i].0.clone(), merged_document(&base[i].1, &changes[j].1));
                    proof {
                        lemma_fields_view_push(out@, entry);
                    }
                    out.push(entry);
                }
            },
        }
        i = i + 1;
    }
    assert(base@.take(i as int) == base@);
    let mut n: usize = 0;
    while n < changes.len()
        invariant
            n <= changes.len(),
            fields_view(out@) == merged_upto(held, changes@, n as int),
        decreases changes.len() - n,
    {
        let ghost name = changes@[n as int].0@;
        let last = find_last(changes, &changes[n].0);
        let fresh = match find_last(base, &changes[n].0) {
            Some(at) => {
                proof {
                    lemma_fields_view_at(base@, name, at as int);
                }
                false
            },
            None => {
                proof {
                    lemma_fields_view_absent(base@, name);
                }
                true
            },
        };
        proof {
            if last is Some {
                lemma_fields_view_at(changes@, name, last->Some_0 as int);
            }
        }
        if last == Some(n) && fresh && !changes[n].1.is_null() {
            let entry = (changes[n].0.clone(), merged_document(&Document::Null, &changes[n].1));
            proof {
                lemma_fields_view_push(out@, entry);
            }
            out.push(entry);
        }
        n = n + 1;
    }
    proof {
        assert forall|k: Seq<char>|
            named.contains_key(k) && !(named[k] is Null) implies merged_upto(
            held,
            changes@,
            changes@.len() as int,
        ).contains_key(k) by {
            lemma_fields_view_has(changes@, k);
        }
        assert(merged_upto(held, changes@, changes@.len() as int) =~= fields_of(
            merged(doc@, patch@),
        ));
    }
    Document::Object(out)
}

/// Merges `patch` into `doc`.
pub fn merge(doc: &mut Document, patch: &Document)
    ensures
        final(doc)@ == merged(old(doc)@, patch@),
{
    let after = merged_document(doc, patch);
    *doc = after;
}

} // verus!
