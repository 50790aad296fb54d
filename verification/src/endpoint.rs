//! The HTTP endpoint layer: what each route answers to each outcome of its
//! registry operation.
//!
//! A route is a direct adapter over one registry call. The functions named
//! after the routes take the outcome of that call, whichever store made it,
//! and give the response. [`handle`] runs a whole request against an
//! in-memory [`Registry`].

use crate::links::{delete, get, get_all, insert, record, views, Link, Registry, StorageError};
use crate::model::{erase, lists, lookup, upsert, LinkView, Table};
use vstd::prelude::*;

verus! {

pub const OK: u16 = 200;

pub const CREATED: u16 = 201;

pub const NO_CONTENT: u16 = 204;

pub const FOUND: u16 = 302;

pub const BAD_REQUEST: u16 = 400;

pub const NOT_FOUND: u16 = 404;

pub const INTERNAL_SERVER_ERROR: u16 = 500;

/// What a response carries after its headers.
#[derive(Debug)]
pub enum Body {
    /// Nothing.
    Empty,
    /// Plain text, for a reader and not for a parser.
    Text(String),
    /// One record, sent as a JSON object with the keys `id` and `href`.
    Record(Link),
    /// Records, sent as a JSON array of such objects.
    Records(Vec<Link>),
}

/// What a [`Body`] holds, as mathematical values.
pub enum BodyView {
    Empty,
    Text(Seq<char>),
    Record(LinkView),
    Records(Seq<LinkView>),
}

impl View for Body {
    type V = BodyView;

    open spec fn view(&self) -> BodyView {
        match *self {
            Body::Empty => BodyView::Empty,
            Body::Text(text) => BodyView::Text(text@),
            Body::Record(link) => BodyView::Record(link@),
            Body::Records(links) => BodyView::Records(views(links@)),
        }
    }
}

/// An HTTP response: the status code, the `Location` header where the
/// response redirects, and the body.
#[derive(Debug)]
pub struct Response {
    pub status: u16,
    pub location: Option<String>,
    pub body: Body,
}

/// What a [`Response`] holds, as mathematical values.
pub struct ResponseView {
    pub status: u16,
    pub location: Option<Seq<char>>,
    pub body: BodyView,
}

impl View for Response {
    type V = ResponseView;

    open spec fn view(&self) -> ResponseView {
        ResponseView {
            status: self.status,
            location: match self.location {
                Some(location) => Some(location@),
                None => None,
            },
            body: self.body@,
        }
    }
}

/// 302, with the destination in the `Location` header and no body.
pub open spec fn redirection(href: Seq<char>) -> ResponseView {
    ResponseView { status: FOUND, location: Some(href), body: BodyView::Empty }
}

/// 201, with the record as stored.
pub open spec fn created(link: LinkView) -> ResponseView {
    ResponseView { status: CREATED, location: None, body: BodyView::Record(link) }
}

/// 204, with no body.
pub open spec fn no_content() -> ResponseView {
    ResponseView { status: NO_CONTENT, location: None, body: BodyView::Empty }
}

/// 200, with the record.
pub open spec fn shown(link: LinkView) -> ResponseView {
    ResponseView { status: OK, location: None, body: BodyView::Record(link) }
}

/// 200, with the records.
pub open spec fn shown_all(links: Seq<LinkView>) -> ResponseView {
    ResponseView { status: OK, location: None, body: BodyView::Records(links) }
}

/// 404, with the words `Not Found` as plain text.
pub open spec fn not_found() -> ResponseView {
    ResponseView { status: NOT_FOUND, location: None, body: BodyView::Text("Not Found"@) }
}

/// 400, with the reason as plain text.
pub open spec fn bad_request(reason: Seq<char>) -> ResponseView {
    ResponseView { status: BAD_REQUEST, location: None, body: BodyView::Text(reason) }
}

/// 500, with the store's message as plain text.
pub open spec fn failure(message: Seq<char>) -> ResponseView {
    ResponseView { status: INTERNAL_SERVER_ERROR, location: None, body: BodyView::Text(message) }
}

/// The response to a request that the store failed on.
pub fn internal_error(err: StorageError) -> (response: Response)
    ensures
        response@ == failure(err@),
{
    Response { status: INTERNAL_SERVER_ERROR, location: None, body: Body::Text(err.message) }
}

/// The response to a request for a record that the registry does not hold.
fn missing() -> (response: Response)
    ensures
        response@ == not_found(),
{
    Response { status: NOT_FOUND, location: None, body: Body::Text("Not Found".to_owned()) }
}

/// Resolves an identifier: redirects to the destination that the lookup
/// found.
pub fn redirect(found: Result<Option<Link>, StorageError>) -> (response: Response)
    ensures
        response@ == match found {
            Ok(Some(link)) => redirection(link@.href),
            Ok(None) => not_found(),
            Err(err) => failure(err@),
        },
{
    match found {
        Ok(Some(link)) => {
            let (_, href) = link.into_parts();
            Response { status: FOUND, location: Some(href), body: Body::Empty }
        },
        Ok(None) => missing(),
        Err(err) => internal_error(err),
    }
}

/// Answers a write with the record as the registry stored it.
pub fn put_link(stored: Result<Link, StorageError>) -> (response: Response)
    ensures
        response@ == match stored {
            Ok(link) => created(link@),
            Err(err) => failure(err@),
        },
{
    match stored {
        Ok(link) => Response { status: CREATED, location: None, body: Body::Record(link) },
        Err(err) => internal_error(err),
    }
}

/// Answers a delete. The answer is the same whether or not a record was
/// there to remove.
pub fn delete_link(removed: Result<bool, StorageError>) -> (response: Response)
    ensures
        response@ == match removed {
            Ok(_) => no_content(),
            Err(err) => failure(err@),
        },
{
    match removed {
        Ok(_) => Response { status: NO_CONTENT, location: None, body: Body::Empty },
        Err(err) => internal_error(err),
    }
}

/// Shows the record that the lookup found.
pub fn get_link(found: Result<Option<Link>, StorageError>) -> (response: Response)
    ensures
        response@ == match found {
            Ok(Some(link)) => shown(link@),
            Ok(None) => not_found(),
            Err(err) => failure(err@),
        },
{
    match found {
        Ok(Some(link)) => Response { status: OK, location: None, body: Body::Record(link) },
        Ok(None) => missing(),
        Err(err) => internal_error(err),
    }
}

/// Shows every record of a listing.
pub fn get_all_links(all: Result<Vec<Link>, StorageError>) -> (response: Response)
    ensures
        response@ == match all {
            Ok(links) => shown_all(views(links@)),
            Err(err) => failure(err@),
        },
{
    match all {
        Ok(links) => Response { status: OK, location: None, body: Body::Records(links) },
        Err(err) => internal_error(err),
    }
}

/// The body of a write, once parsed: the destination to store.
#[derive(Debug)]
pub struct Payload {
    pub href: String,
}

/// A request body that is not of the shape `{"href": "<string>"}`, with the
/// parser's reason.
#[derive(Debug)]
pub struct MalformedRequest {
    pub reason: String,
}

/// The response to a write whose body did not parse. Such a request never
/// reaches the registry.
pub fn malformed_request(err: MalformedRequest) -> (response: Response)
    ensures
        response@ == bad_request(err.reason@),
{
    Response { status: BAD_REQUEST, location: None, body: Body::Text(err.reason) }
}

/// A request to one of the five routes.
#[derive(Debug)]
pub enum Request {
    /// `GET /{id}`
    Redirect(String),
    /// `PUT /{id}`, with what became of its body.
    PutLink(String, Result<Payload, MalformedRequest>),
    /// `DELETE /{id}`
    DeleteLink(String),
    /// `GET /debug/{id}`
    GetLink(String),
    /// `GET /debug`
    GetAllLinks,
}

/// What a [`Request`] holds, as mathematical values. The body of a write is
/// the destination it asks for, or the reason why it did not parse.
pub enum RequestView {
    Redirect(Seq<char>),
    PutLink(Seq<char>, Result<Seq<char>, Seq<char>>),
    DeleteLink(Seq<char>),
    GetLink(Seq<char>),
    GetAllLinks,
}

impl View for Request {
    type V = RequestView;

    open spec fn view(&self) -> RequestView {
        match *self {
            Request::Redirect(id) => RequestView::Redirect(id@),
            Request::PutLink(id, Ok(payload)) => RequestView::PutLink(id@, Ok(payload.href@)),
            Request::PutLink(id, Err(err)) => RequestView::PutLink(id@, Err(err.reason@)),
            Request::DeleteLink(id) => RequestView::DeleteLink(id@),
            Request::GetLink(id) => RequestView::GetLink(id@),
            Request::GetAllLinks => RequestView::GetAllLinks,
        }
    }
}

/// The table that a request leaves. Only a write with a well-formed body and
/// a delete change it.
pub open spec fn table_after(table: Table, request: RequestView) -> Table {
    match request {
        RequestView::PutLink(id, Ok(href)) => upsert(table, LinkView { id, href }),
        RequestView::DeleteLink(id) => erase(table, id).0,
        _ => table,
    }
}

/// Whether `response` is a right answer to `request` on a registry that
/// holds `table`. Every request but a listing has one right answer; a
/// listing may come in any order.
pub open spec fn answers(table: Table, request: RequestView, response: ResponseView) -> bool {
    match request {
        RequestView::Redirect(id) => response == match lookup(table, id) {
            Some(link) => redirection(link.href),
            None => not_found(),
        },
        RequestView::PutLink(id, Ok(href)) => response == created(LinkView { id, href }),
        RequestView::PutLink(_, Err(reason)) => response == bad_request(reason),
        RequestView::DeleteLink(_) => response == no_content(),
        RequestView::GetLink(id) => response == match lookup(table, id) {
            Some(link) => shown(link),
            None => not_found(),
        },
        RequestView::GetAllLinks => exists|all: Seq<LinkView>|
            lists(all, table) && response == #[trigger] shown_all(all),
    }
}

/// Serves one request against the registry: makes the one registry call of
/// the request's route and answers with its outcome.
pub fn handle(registry: &mut Registry, request: Request) -> (response: Response)
    ensures
        final(registry)@ == table_after(old(registry)@, request@),
        answers(old(registry)@, request@, response@),
{
    match request {
        Request::Redirect(id) => redirect(Ok(get(registry, id))),
        Request::PutLink(id, Ok(payload)) => put_link(
            Ok(insert(registry, Link::new(id, payload.href))),
        ),
        Request::PutLink(_, Err(err)) => malformed_request(err),
        Request::DeleteLink(id) => delete_link(Ok(delete(registry, id))),
        Request::GetLink(id) => get_link(Ok(get(registry, id))),
        Request::GetAllLinks => get_all_links(Ok(get_all(registry))),
    }
}

} // verus!
