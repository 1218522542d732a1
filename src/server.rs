use vstd::prelude::*;
use vstd::string::*;
use crate::json::{Json, json_of, parse_json, parse_query, query_params_of, text_of, error_body, error_text};
use crate::reply::{Reply, ReplyData};
use crate::request::{Method, Req, same_method, names_method, route_of, normalize_path, same_text};

verus! {

/// What a byte sequence reads as, as UTF-8 text: `None` where it is not UTF-8.
pub uninterp spec fn utf8_of(b: Seq<u8>) -> Option<Seq<char>>;

/// Relies on String::from_utf8 to read bytes as UTF-8 text.
#[verifier::external_body]
fn utf8_text(b: Vec<u8>) -> (r: Option<String>)
    ensures
        r is Some <==> utf8_of(b@) is Some,
        r is Some ==> r->Some_0@ == utf8_of(b@)->Some_0,
        b@.len() == 0 ==> r is Some && r->Some_0@.len() == 0,
{
    String::from_utf8(b).ok()
}

/// The verb of a request on the request/response transport.
#[derive(Clone, Copy, Debug, PartialEq, Eq, Structural)]
pub enum Verb {
    Get,
    Head,
    Post,
    Put,
    Patch,
    Delete,
    Options,
    Other,
}

/// The handlers of one route, one for each method it supports.
pub struct Resource<H> {
    pub handlers: Vec<(Method, H)>,
}

/// The index of the first handler for `m`, or the length where there is none.
pub open spec fn method_index<H>(hs: Seq<(Method, H)>, m: Method) -> int
    decreases hs.len(),
{
    if hs.len() == 0 {
        0
    } else if same_method(hs[0].0, m) {
        0
    } else {
        1 + method_index(hs.subrange(1, hs.len() as int), m)
    }
}

proof fn lemma_method_index<H>(hs: Seq<(Method, H)>, m: Method)
    ensures
        0 <= method_index(hs, m) <= hs.len(),
        method_index(hs, m) < hs.len() ==> same_method(hs[method_index(hs, m)].0, m),
        forall|j: int| 0 <= j < method_index(hs, m) ==> !same_method(#[trigger] hs[j].0, m),
    decreases hs.len(),
{
    if hs.len() > 0 && !same_method(hs[0].0, m) {
        let t = hs.subrange(1, hs.len() as int);
        lemma_method_index(t, m);
        assert forall|j: int| 0 <= j < method_index(hs, m) implies !same_method(#[trigger] hs[j].0, m) by {
            if j > 0 {
                assert(hs[j] == t[j - 1]);
            }
        }
    }
}

impl<H> Resource<H> {
    pub fn new() -> (r: Resource<H>)
        ensures
            r.handlers@.len() == 0,
    {
        Resource { handlers: Vec::new() }
    }

    /// Adds a handler for a method; an earlier one for the same method wins.
    pub fn on(&mut self, m: Method, h: H)
        ensures
            final(self).handlers@ == old(self).handlers@.push((m, h)),
    {
        self.handlers.push((m, h));
    }

    /// The handler for `m`, if the resource has one.
    pub fn find(&self, m: &Method) -> (r: Option<&H>)
        ensures
            ({
                let k = method_index(self.handlers@, *m);
                &&& r is Some <==> k < self.handlers@.len()
                &&& r is Some ==> r->Some_0 == &self.handlers@[k].1
            }),
    {
        let n = self.handlers.len();
        let mut j: usize = 0;
        while j < n
            invariant
                n == self.handlers@.len(),
                j <= n,
                forall|i: int| 0 <= i < j ==> !same_method(#[trigger] self.handlers@[i].0, *m),
            decreases n - j,
        {
            if self.handlers[j].0.same(m) {
                proof {
                    lemma_method_index(self.handlers@, *m);
                }
                return Some(&self.handlers[j].1);
            }
            j = j + 1;
        }
        proof {
            lemma_method_index(self.handlers@, *m);
        }
        None
    }
}

/// The route table: a resource for each route.
pub struct Server<H> {
    pub route_table: Vec<(String, Resource<H>)>,
}

impl<H> Server<H> {
    /// No route stands in the table twice.
    pub open spec fn wf(&self) -> bool {
        forall|i: int, j: int|
            0 <= i < j < self.route_table@.len() ==> self.route_table@[i].0@
                != self.route_table@[j].0@
    }

    /// Whether `k` is a route of the table.
    pub open spec fn has_route(&self, k: Seq<char>) -> bool {
        exists|i: int| 0 <= i < self.route_table@.len() && self.route_table@[i].0@ == k
    }

    /// The place of route `k` in the table.
    pub open spec fn route_index(&self, k: Seq<char>) -> int {
        choose|i: int| 0 <= i < self.route_table@.len() && self.route_table@[i].0@ == k
    }

    /// The resource mounted at route `k`.
    pub open spec fn resource_at(&self, k: Seq<char>) -> Resource<H> {
        self.route_table@[self.route_index(k)].1
    }

    pub fn new() -> (r: Server<H>)
        ensures
            r.wf(),
            forall|k: Seq<char>| !r.has_route(k),
    {
        Server { route_table: Vec::new() }
    }

    fn find_route(&self, k: &str) -> (r: Option<usize>)
        requires
            self.wf(),
        ensures
            r is Some <==> self.has_route(k@),
            r is Some ==> r->Some_0 == self.route_index(k@) && r->Some_0 < self.route_table@.len(),
    {
        let n = self.route_table.len();
        let mut i: usize = 0;
        while i < n
            invariant
                n == self.route_table@.len(),
                i <= n,
                self.wf(),
                forall|j: int| 0 <= j < i ==> self.route_table@[j].0@ != k@,
            decreases n - i,
        {
            if same_text(self.route_table[i].0.as_str(), k) {
                proof {
                    let c = self.route_index(k@);
                    assert(self.route_table@[c].0@ == k@);
                }
                return Some(i);
            }
            i = i + 1;
        }
        None
    }

    /// Whether a resource is mounted at route `s`.
    pub fn has_resource(&self, s: &str) -> (r: bool)
        requires
            self.wf(),
        ensures
            r == self.has_route(s@),
    {
        self.find_route(s).is_some()
    }

    /// Mounts `resource` at `route`, in place of any resource mounted there.
    pub fn mount(&mut self, route: String, resource: Resource<H>)
        requires
            old(self).wf(),
        ensures
            final(self).wf(),
            final(self).has_route(route@),
            final(self).resource_at(route@) == resource,
            forall|k: Seq<char>| k != route@ ==> (final(self).has_route(k) == old(self).has_route(k)),
            forall|k: Seq<char>|
                k != route@ && old(self).has_route(k) ==> final(self).resource_at(k) == old(
                    self,
                ).resource_at(k),
    {
        match self.find_route(route.as_str()) {
            Some(i) => {
                let ghost before = self.route_table@;
                self.route_table.set(i, (route, resource));
                proof {
                    assert(self.route_table@[i as int].0@ == route@);
                    assert forall|k: Seq<char>| k != route@ implies (self.has_route(k) == old(self).has_route(k)) by {
                        if self.has_route(k) {
                            let c = self.route_index(k);
                            assert(before[c].0@ == k);
                        }
                        if old(self).has_route(k) {
                            let c = old(self).route_index(k);
                            assert(self.route_table@[c].0@ == k);
                        }
                    }
                    assert forall|k: Seq<char>|
                        k != route@ && old(self).has_route(k) implies self.resource_at(k)
                        == old(self).resource_at(k) by {
                        let c = self.route_index(k);
                        let d = old(self).route_index(k);
                        assert(self.route_table@[c].0@ == k);
                        assert(before[d].0@ == k);
                        assert(c == d);
                    }
                    assert(self.route_index(route@) == i);
                }
            },
            None => {
                let ghost before = self.route_table@;
                self.route_table.push((route, resource));
                proof {
                    let n = before.len() as int;
                    assert(self.route_table@[n].0@ == route@);
                    assert forall|k: Seq<char>| k != route@ implies (self.has_route(k) == old(self).has_route(k)) by {
                        if self.has_route(k) {
                            let c = self.route_index(k);
                            assert(c != n);
                            assert(before[c].0@ == k);
                        }
                        if old(self).has_route(k) {
                            let c = old(self).route_index(k);
                            assert(self.route_table@[c].0@ == k);
                        }
                    }
                    assert forall|k: Seq<char>|
                        k != route@ && old(self).has_route(k) implies self.resource_at(k)
                        == old(self).resource_at(k) by {
                        let c = self.route_index(k);
                        let d = old(self).route_index(k);
                        assert(self.route_table@[c].0@ == k);
                        assert(self.route_table@[d].0@ == k);
                        assert(c == d);
                    }
                    assert(self.route_index(route@) == n);
                }
            },
        }
    }

    /// Routes a request: the handler that takes it, with the request, or the
    /// reply that refuses it (404 for an unknown route, 405 for a method that
    /// the route does not support).
    pub fn handle(&self, req: Req) -> (r: Result<(&H, Req), Reply>)
        requires
            self.wf(),
        ensures
            ({
                let k = req.resource@;
                let hs = self.resource_at(k).handlers@;
                let m = method_index(hs, req.method);
                &&& !self.has_route(k) ==> (r matches Err(e) && is_error_reply(e, 404, Some(req), not_found_text()))
                &&& self.has_route(k) && m == hs.len() ==> (r matches Err(e) && is_error_reply(e, 405, Some(req), not_allowed_text()))
                &&& self.has_route(k) && m < hs.len() ==> (r matches Ok((h, q)) && q == req && h == &hs[m].1)
            }),
    {
        match self.find_route(req.resource.as_str()) {
            None => {
                let body = error_body("resource not found");
                proof { reveal_strlit("resource not found"); }
                Err(req.into_reply(404, body))
            },
            Some(i) => {
                let resource = &self.route_table[i].1;
                match resource.find(&req.method) {
                    Some(h) => Ok((h, req)),
                    None => {
                        let body = error_body("method not supported");
                        proof { reveal_strlit("method not supported"); }
                        Err(req.into_reply(405, body))
                    },
                }
            },
        }
    }
}

/// `e` is an error reply with this status, request and diagnostic.
pub open spec fn is_error_reply(e: Reply, code: i64, req: Option<Req>, msg: Seq<char>) -> bool {
    &&& e.code == code
    &&& e.req == req
    &&& e.data matches ReplyData::Value(t) && t@ == error_text(msg)
}

pub open spec fn not_found_text() -> Seq<char> {
    "resource not found"@
}

pub open spec fn not_allowed_text() -> Seq<char> {
    "method not supported"@
}

/// A 400 reply with the error array for `msg`.
pub fn bad_request(msg: &str) -> (r: Reply)
    ensures
        is_error_reply(r, 400, None, msg@),
{
    Reply::new(400, None, error_body(msg))
}

/// Bytes as a sequence, where there are any.
pub open spec fn bytes_of(body: Option<Vec<u8>>) -> Option<Seq<u8>> {
    match body {
        Some(b) => Some(b@),
        None => None,
    }
}

/// A request body as read: missing, not UTF-8, text that is not JSON, or
/// the payload's JSON text (`null` for an empty body).
#[derive(Clone, Debug)]
pub enum BodyRead {
    Missing,
    NotText,
    NotJson,
    Payload(String),
}

/// The payload that a body gives: the body's JSON text, or `null` where it is empty.
pub open spec fn body_data(t: Seq<char>) -> Seq<char> {
    if t.len() == 0 {
        "null"@
    } else {
        t
    }
}

/// The payload of a body that reads: `null` for an empty body, else its text
/// (`null` too where that text is empty).
pub open spec fn payload_of(b: Seq<u8>) -> Seq<char> {
    if b.len() == 0 {
        "null"@
    } else {
        body_data(utf8_of(b)->Some_0)
    }
}

/// What a body reads as: an empty body reads as the payload `null`.
pub open spec fn body_read_of(body: Option<Seq<u8>>) -> BodyRead {
    match body {
        None => BodyRead::Missing,
        Some(b) => if b.len() == 0 {
            BodyRead::Payload(arbitrary())
        } else {
            match utf8_of(b) {
            None => BodyRead::NotText,
            Some(t) => if t.len() > 0 && json_of(t) is None {
                BodyRead::NotJson
            } else {
                BodyRead::Payload(arbitrary())
            },
            }
        },
    }
}

/// `r` is what the body reads as.
pub open spec fn reads_as(body: Option<Seq<u8>>, r: BodyRead) -> bool {
    match body_read_of(body) {
        BodyRead::Payload(_) => r matches BodyRead::Payload(d) && d@ == payload_of(body->Some_0),
        BodyRead::Missing => r is Missing,
        BodyRead::NotText => r is NotText,
        BodyRead::NotJson => r is NotJson,
    }
}

/// Reads a request body as UTF-8 text holding JSON.
pub fn read_body(body: Option<Vec<u8>>) -> (r: BodyRead)
    ensures
        reads_as(bytes_of(body), r),
{
    let bytes = match body {
        Some(b) => b,
        None => return BodyRead::Missing,
    };
    if bytes.len() == 0 {
        proof { reveal_strlit("null"); }
        return BodyRead::Payload(String::from_str("null"));
    }
    let text = match utf8_text(bytes) {
        Some(t) => t,
        None => return BodyRead::NotText,
    };
    if text.as_str().unicode_len() == 0 {
        proof { reveal_strlit("null"); }
        BodyRead::Payload(String::from_str("null"))
    } else {
        match parse_json(text.as_str()) {
            Some(_) => BodyRead::Payload(text),
            None => BodyRead::NotJson,
        }
    }
}

/// Why a request is refused, given what its body and query read as, if it is.
pub open spec fn request_fault(body: BodyRead, params_read: bool) -> Option<Seq<char>> {
    match body {
        BodyRead::Missing => Some("missing request body"@),
        BodyRead::NotText => Some("invalid unicode in request body"@),
        BodyRead::NotJson => Some("invalid JSON in request body"@),
        BodyRead::Payload(_) => if !params_read {
            Some("failed to parse query string"@)
        } else {
            None
        },
    }
}

/// Builds the request for `method` on `path`, given what its body and its
/// query read as. A `GET` on a mounted route lists it; any other request
/// posts its body.
pub fn req_from_http<H>(
    method: &Verb,
    path: &str,
    body: BodyRead,
    params: Option<Vec<(String, String)>>,
    server: &Server<H>,
) -> (r: Result<Req, Reply>)
    requires
        server.wf(),
    ensures
        r is Err <==> request_fault(body, params is Some) is Some,
        r matches Err(e) ==> is_error_reply(e, 400, None, request_fault(body, params is Some)->Some_0),
        r matches Ok(q) ==> {
            &&& q.resource@ == route_of(path@)
            &&& q.id is None
            &&& q.params == params->Some_0
            &&& if *method == Verb::Get && server.has_route(route_of(path@)) {
                q.method is List && q.data@ == "null"@
            } else {
                q.method is Post && q.data == body->Payload_0
            }
        },
{
    let data = match body {
        BodyRead::Missing => return Err(bad_request("missing request body")),
        BodyRead::NotText => return Err(bad_request("invalid unicode in request body")),
        BodyRead::NotJson => return Err(bad_request("invalid JSON in request body")),
        BodyRead::Payload(d) => d,
    };
    let params = match params {
        Some(p) => p,
        None => return Err(bad_request("failed to parse query string")),
    };
    let route = normalize_path(path);
    if *method == Verb::Get && server.has_resource(route.as_str()) {
        Ok(Req::new(route, Method::List, None, String::from_str("null"), params))
    } else {
        Ok(Req::new(route, Method::Post, None, data, params))
    }
}

/// Why a request of the request/response transport is refused, if it is.
pub open spec fn http_fault(body: Option<Seq<u8>>, query: Option<Seq<char>>) -> Option<Seq<char>> {
    request_fault(body_read_of(body), query_params_of(query) is Some)
}

/// Normalizes a request of the request/response transport, given its query
/// as the JSON text that the query string parsed into (`None` where it did not
/// parse). A `GET` on a mounted route lists it; any other request posts its body.
pub fn http_to_req<H>(
    method: &Verb,
    path: &str,
    query: Option<String>,
    body: Option<Vec<u8>>,
    server: &Server<H>,
) -> (r: Result<Req, Reply>)
    requires
        server.wf(),
    ensures
        r is Err <==> http_fault(bytes_of(body), text_of(query)) is Some,
        r matches Err(e) ==> is_error_reply(e, 400, None, http_fault(bytes_of(body), text_of(query))->Some_0),
        r matches Ok(q) ==> {
            &&& q.resource@ == route_of(path@)
            &&& q.id is None
            &&& q.params@ == query_params_of(text_of(query))->Some_0
            &&& if *method == Verb::Get && server.has_route(route_of(path@)) {
                q.method is List && q.data@ == "null"@
            } else {
                q.method is Post && q.data@ == payload_of(bytes_of(body)->Some_0)
            }
        },
{
    let read = read_body(body);
    let params = parse_query(query);
    req_from_http(method, path, read, params, server)
}

/// What the first elements of a message (method, params, id) read as, where
/// the message has them; an element that is not there reads as nothing.
pub open spec fn head(heads: Seq<Option<Json>>, i: int) -> Option<Json> {
    if 0 <= i < heads.len() {
        heads[i]
    } else {
        None
    }
}

/// Why a message is refused, given what it reads as (`msg`) and what its
/// first elements read as (`heads`), if it is.
pub open spec fn message_fault(msg: Option<Json>, heads: Seq<Option<Json>>) -> Option<Seq<char>> {
    match msg {
        None => Some("could not parse input as json"@),
        Some(Json::Array(items)) => {
            let n = items@.len();
            if n < 1 {
                Some("missing method in request"@)
            } else if !(head(heads, 0) matches Some(Json::Str(_))) {
                Some("method must be a string"@)
            } else if n < 2 {
                Some("missing params in request"@)
            } else if !(head(heads, 1) matches Some(Json::Object(_))) {
                Some("params must be an object"@)
            } else if n < 3 {
                Some("missing id in request"@)
            } else if !(head(heads, 2) matches Some(Json::Str(_)) || head(heads, 2) matches Some(
                Json::Null,
            )) {
                Some("id must be a string or null"@)
            } else if n < 4 {
                Some("missing data in request"@)
            } else {
                None
            }
        },
        Some(_) => Some("was not array"@),
    }
}

/// The request that a message gives, with what its parts read as.
pub open spec fn message_req(q: Req, msg: Option<Json>, heads: Seq<Option<Json>>, route: Seq<char>) -> bool {
    &&& q.resource@ == route
    &&& names_method(head(heads, 0)->Some_0->Str_0@, q.method)
    &&& q.params@ == head(heads, 1)->Some_0->Object_0@
    &&& match head(heads, 2) {
        Some(Json::Str(t)) => q.id matches Some(i) && i@ == t@,
        _ => q.id is None,
    }
    &&& q.data@ == msg->Some_0->Array_0@[3]@
}

/// Builds the request `[method, params, id, data]` from a message read as
/// JSON and its first elements read as JSON, for the route of its connection.
pub fn req_from_message(msg: Option<Json>, heads: Vec<Option<Json>>, route: &str) -> (r: Result<Req, Reply>)
    ensures
        r is Err <==> message_fault(msg, heads@) is Some,
        r matches Err(e) ==> is_error_reply(e, 400, None, message_fault(msg, heads@)->Some_0),
        r matches Ok(q) ==> message_req(q, msg, heads@, route@),
{
    let items = match msg {
        Some(Json::Array(a)) => a,
        Some(_) => return Err(bad_request("was not array")),
        None => return Err(bad_request("could not parse input as json")),
    };
    let mut heads = heads;
    let ghost hs = heads@;
    if items.len() < 1 {
        return Err(bad_request("missing method in request"));
    }
    heads.truncate(3);
    let id = if heads.len() >= 3 { heads.pop().unwrap() } else { None };
    let params = if heads.len() >= 2 { heads.pop().unwrap() } else { None };
    let method = if heads.len() >= 1 { heads.pop().unwrap() } else { None };
    proof {
        assert(method == head(hs, 0));
        assert(params == head(hs, 1));
        assert(id == head(hs, 2));
    }
    let method = match method {
        Some(Json::Str(m)) => m,
        _ => return Err(bad_request("method must be a string")),
    };
    if items.len() < 2 {
        return Err(bad_request("missing params in request"));
    }
    let params = match params {
        Some(Json::Object(o)) => o,
        _ => return Err(bad_request("params must be an object")),
    };
    if items.len() < 3 {
        return Err(bad_request("missing id in request"));
    }
    let id = match id {
        Some(Json::Str(t)) => Some(t),
        Some(Json::Null) => None,
        _ => return Err(bad_request("id must be a string or null")),
    };
    if items.len() < 4 {
        return Err(bad_request("missing data in request"));
    }
    let data = items[3].clone();
    Ok(Req::new(String::from_str(route), Method::from_str(method), id, data, params))
}

/// What the first elements (up to three) of a message read as.
pub open spec fn ws_heads(msg: Seq<char>) -> Seq<Option<Json>> {
    match json_of(msg) {
        Some(Json::Array(items)) => {
            let n = if items@.len() < 3 { items@.len() } else { 3 };
            Seq::new(n, |i: int| json_of(items@[i]@))
        },
        _ => Seq::empty(),
    }
}

/// Why a message of the bidirectional transport is refused, if it is.
pub open spec fn ws_fault(msg: Seq<char>) -> Option<Seq<char>> {
    message_fault(json_of(msg), ws_heads(msg))
}

/// Normalizes a message `[method, params, id, data]` of the bidirectional
/// transport, for the route that its connection is attached to.
pub fn websocket_to_req(s: String, route: &str) -> (r: Result<Req, Reply>)
    ensures
        r is Err <==> ws_fault(s@) is Some,
        r matches Err(e) ==> is_error_reply(e, 400, None, ws_fault(s@)->Some_0),
        r matches Ok(q) ==> message_req(q, json_of(s@), ws_heads(s@), route@),
{
    let msg = parse_json(s.as_str());
    let mut heads: Vec<Option<Json>> = Vec::new();
    match &msg {
        Some(Json::Array(a)) => {
            let n: usize = if a.len() < 3 { a.len() } else { 3 };
            let mut i: usize = 0;
            while i < n
                invariant
                    n <= a@.len(),
                    n == if a@.len() < 3 { a@.len() } else { 3 },
                    i <= n,
                    heads@.len() == i,
                    forall|j: int| 0 <= j < i ==> #[trigger] heads@[j] == json_of(a@[j]@),
                decreases n - i,
            {
                heads.push(parse_json(a[i].as_str()));
                i = i + 1;
            }
        },
        _ => {},
    }
    assert(heads@ =~= ws_heads(s@));
    req_from_message(msg, heads, route)
}

} // verus!
