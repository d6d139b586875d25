//! One entry point for each kind of request, and one for all of them.

use crate::document::Document;
use crate::error::TodoError;
use crate::repository::{
    create_outcome, delete_outcome, fetch_outcome, items_view, list_outcome, replace_outcome,
    update_outcome, Create, Delete, Fetch, List, Replace, Update,
};
use crate::store::Store;
use crate::todo::{ListOptions, Todo, TodoView};
use vstd::prelude::*;

verus! {

/// How many items a list holds at most when the request names no limit.
pub const DEFAULT_LIMIT: u64 = 100;

/// One request to the service.
#[derive(Debug)]
pub enum Request {
    List(ListOptions),
    Fetch(String),
    Create(Todo),
    Update(Document),
    Replace(Todo),
    Delete(String),
}

/// The answer to a request: what it asked for, or why there is none.
#[derive(Debug)]
pub enum Reply {
    Items(Vec<Todo>),
    Item(Todo),
    Error(TodoError),
}

/// The limit that a request for a list asks for.
pub open spec fn limit_of(opts: ListOptions) -> nat {
    match opts.limit {
        Some(limit) => limit as nat,
        None => DEFAULT_LIMIT as nat,
    }
}

/// A reply to a request for one item, as a result.
pub open spec fn item_reply(reply: Reply) -> Option<Result<TodoView, TodoError>> {
    match reply {
        Reply::Item(item) => Some(Ok(item@)),
        Reply::Error(e) => Some(Err(e)),
        Reply::Items(_) => None,
    }
}

/// A reply to a request for a list, as a result.
pub open spec fn items_reply(reply: Reply) -> Option<Result<Seq<TodoView>, TodoError>> {
    match reply {
        Reply::Items(items) => Some(Ok(items_view(items@))),
        Reply::Error(e) => Some(Err(e)),
        Reply::Item(_) => None,
    }
}

/// Whether `reply` answers `request`, on a store that held `before` and holds `after`.
pub open spec fn answers(
    request: Request,
    before: Map<Seq<u8>, Seq<u8>>,
    after: Map<Seq<u8>, Seq<u8>>,
    reply: Reply,
) -> bool {
    match request {
        Request::List(opts) => items_reply(reply) matches Some(r) && list_outcome(
            before,
            limit_of(opts),
            r,
        ) && after == before,
        Request::Fetch(key) => item_reply(reply) matches Some(r) && fetch_outcome(before, key@, r)
            && after == before,
        Request::Create(data) => item_reply(reply) matches Some(r) && create_outcome(
            before,
            after,
            data@,
            r,
        ),
        Request::Update(patch) => item_reply(reply) matches Some(r) && update_outcome(
            before,
            after,
            patch@,
            r,
        ),
        Request::Replace(data) => item_reply(reply) matches Some(r) && replace_outcome(
            before,
            after,
            data@,
            r,
        ),
        Request::Delete(key) => item_reply(reply) matches Some(r) && delete_outcome(
            before,
            after,
            key@,
            r,
        ),
    }
}

/// The reply that carries the outcome of an operation on one item.
fn reply_of(r: Result<Todo, TodoError>) -> (reply: Reply)
    ensures
        item_reply(reply) == Some(crate::repository::result_view(r)),
{
    match r {
        Ok(item) => Reply::Item(item),
        Err(e) => Reply::Error(e),
    }
}

/// Answers a request for a list: the items of the store in ascending order of their keys, as
/// many as `opts` allows, or `DEFAULT_LIMIT` where it names no limit. The reply is the error
/// `StoreUnavailable` when the store cannot be read, and only then.
pub fn todo_list(store: &Store, opts: ListOptions) -> (reply: Reply)
    ensures
        items_reply(reply) matches Some(r) && list_outcome(store@, limit_of(opts), r),
{
    let limit: u64 = match opts.limit {
        Some(limit) => limit,
        None => DEFAULT_LIMIT,
    };
    match Todo::list(store, limit) {
        Ok(items) => Reply::Items(items),
        Err(e) => Reply::Error(e),
    }
}

/// Answers a request for the item under `todo_key`: the item, or the error that says why
/// there is none, which is `StoreUnavailable` when the store cannot be read.
pub fn todo_fetch(store: &Store, todo_key: String) -> (reply: Reply)
    ensures
        item_reply(reply) matches Some(r) && fetch_outcome(store@, todo_key@, r),
{
    reply_of(Todo::fetch(store, todo_key.as_str()))
}

/// Answers a request to store `todo` as a new item: the item under its new key, or the error
/// `StoreUnavailable` when the store cannot be read, or `WriteFailed` where the store has no
/// next key or does not take the record.
pub fn todo_create(store: &mut Store, todo: Todo) -> (reply: Reply)
    ensures
        item_reply(reply) matches Some(r) && create_outcome(
            old(store)@,
            final(store)@,
            todo@,
            r,
        ),
{
    reply_of(Todo::create(store, todo))
}

/// Answers a request to change an item as `todo_patch` says.
pub fn todo_update(store: &mut Store, todo_patch: Document) -> (reply: Reply)
    ensures
        item_reply(reply) matches Some(r) && update_outcome(
            old(store)@,
            final(store)@,
            todo_patch@,
            r,
        ),
{
    reply_of(Todo::update(store, todo_patch))
}

/// Answers a request to put `todo` in the place of the item with its key.
pub fn todo_replace(store: &mut Store, todo: Todo) -> (reply: Reply)
    ensures
        item_reply(reply) matches Some(r) && replace_outcome(
            old(store)@,
            final(store)@,
            todo@,
            r,
        ),
{
    reply_of(Todo::replace(store, todo))
}

/// Answers a request to delete the item under `todo_key`.
pub fn todo_delete(store: &mut Store, todo_key: String) -> (reply: Reply)
    ensures
        item_reply(reply) matches Some(r) && delete_outcome(
            old(store)@,
            final(store)@,
            todo_key@,
            r,
        ),
{
    reply_of(Todo::delete(store, todo_key.as_str()))
}

/// Answers any request, by the operation that it names.
pub fn todo(store: &mut Store, request: Request) -> (reply: Reply)
    ensures
        answers(request, old(store)@, final(store)@, reply),
{
    match request {
        Request::List(opts) => todo_list(store, opts),
        Request::Fetch(key) => todo_fetch(store, key),
        Request::Create(data) => todo_create(store, data),
        Request::Update(patch) => todo_update(store, patch),
        Request::Replace(data) => todo_replace(store, data),
        Request::Delete(key) => todo_delete(store, key),
    }
}

} // verus!
