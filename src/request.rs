use vstd::prelude::*;
use vstd::string::*;
use crate::reply::{Reply, ReplyData};

verus! {

/// The verb of a request: a closed set, and `Action` for any other name.
#[derive(Clone, Debug)]
pub enum Method {
    List,
    Get,
    Post,
    Put,
    Delete,
    Listen,
    Action(String),
}

/// The core method that a name stands for, by the fixed table of verb
/// names; `None` for any other name.
pub open spec fn core_method(name: Seq<char>) -> Option<Method> {
    if name == "list"@ {
        Some(Method::List)
    } else if name == "get"@ {
        Some(Method::Get)
    } else if name == "post"@ {
        Some(Method::Post)
    } else if name == "put"@ {
        Some(Method::Put)
    } else if name == "delete"@ {
        Some(Method::Delete)
    } else if name == "listen"@ {
        Some(Method::Listen)
    } else {
        None
    }
}

/// Two methods are the same verb (for actions: the same name).
pub open spec fn same_method(a: Method, b: Method) -> bool {
    match (a, b) {
        (Method::List, Method::List) => true,
        (Method::Get, Method::Get) => true,
        (Method::Post, Method::Post) => true,
        (Method::Put, Method::Put) => true,
        (Method::Delete, Method::Delete) => true,
        (Method::Listen, Method::Listen) => true,
        (Method::Action(x), Method::Action(y)) => x@ == y@,
        _ => false,
    }
}

/// `m` is the method that `name` stands for: a core method, or else the
/// action of that name.
pub open spec fn names_method(name: Seq<char>, m: Method) -> bool {
    match core_method(name) {
        Some(k) => same_method(k, m),
        None => m matches Method::Action(a) && a@ == name,
    }
}

impl Method {
    /// The method named by `name`, by the fixed table of verb names.
    pub fn from_str(name: String) -> (r: Method)
        ensures
            names_method(name@, r),
    {
        proof {
            reveal_strlit("list");
            reveal_strlit("get");
            reveal_strlit("post");
            reveal_strlit("put");
            reveal_strlit("delete");
            reveal_strlit("listen");
        }
        if name == String::from_str("list") {
            Method::List
        } else if name == String::from_str("get") {
            Method::Get
        } else if name == String::from_str("post") {
            Method::Post
        } else if name == String::from_str("put") {
            Method::Put
        } else if name == String::from_str("delete") {
            Method::Delete
        } else if name == String::from_str("listen") {
            Method::Listen
        } else {
            Method::Action(name)
        }
    }

    /// Whether two methods are the same verb.
    pub fn same(&self, other: &Method) -> (r: bool)
        ensures
            r == same_method(*self, *other),
    {
        match (self, other) {
            (Method::List, Method::List) => true,
            (Method::Get, Method::Get) => true,
            (Method::Post, Method::Post) => true,
            (Method::Put, Method::Put) => true,
            (Method::Delete, Method::Delete) => true,
            (Method::Listen, Method::Listen) => true,
            (Method::Action(x), Method::Action(y)) => x.eq(y),
            _ => false,
        }
    }
}

/// A normalized API call.
#[derive(Clone, Debug)]
pub struct Req {
    /// The route it is for: starts with `/`.
    pub resource: String,
    pub method: Method,
    pub id: Option<String>,
    /// The payload, as JSON text (`null` when there is none). From the
    /// request/response transport it is the body's text as sent; from the
    /// bidirectional transport it is the element as serde_json writes it back,
    /// so one JSON value may come as two texts (` [1] ` and `[1]`).
    pub data: String,
    /// The parameters, each a key and a JSON text.
    pub params: Vec<(String, String)>,
}

impl Req {
    pub fn new(
        resource: String,
        method: Method,
        id: Option<String>,
        data: String,
        params: Vec<(String, String)>,
    ) -> (r: Req)
        ensures
            r == (Req { resource, method, id, data, params }),
    {
        Req { resource, method, id, data, params }
    }

    pub fn resource(&self) -> (r: &String)
        ensures
            r == self.resource,
    {
        &self.resource
    }

    pub fn method(&self) -> (r: &Method)
        ensures
            r == self.method,
    {
        &self.method
    }

    /// A reply to this request, which keeps it.
    pub fn into_reply(self, code: i64, data: String) -> (r: Reply)
        ensures
            r == (Reply { code, req: Some(self), data: ReplyData::Value(data) }),
    {
        Reply { code, req: Some(self), data: ReplyData::Value(data) }
    }
}

/// Whether two texts are equal, char by char.
pub fn same_text(a: &str, b: &str) -> (r: bool)
    ensures
        r == (a@ == b@),
{
    let n = a.unicode_len();
    if n != b.unicode_len() {
        return false;
    }
    let mut i: usize = 0;
    while i < n
        invariant
            n == a@.len(),
            n == b@.len(),
            i <= n,
            forall|j: int| 0 <= j < i ==> a@[j] == b@[j],
        decreases n - i,
    {
        if a.get_char(i) != b.get_char(i) {
            return false;
        }
        i = i + 1;
    }
    assert(a@ =~= b@);
    true
}

/// The path after its first `/` (empty where it has none).
pub open spec fn after_first_slash(p: Seq<char>) -> Seq<char>
    decreases p.len(),
{
    if p.len() == 0 {
        p
    } else if p[0] == '/' {
        p.subrange(1, p.len() as int)
    } else {
        after_first_slash(p.subrange(1, p.len() as int))
    }
}

/// A path as a route: its first segment dropped, then one trailing `/`,
/// then the rest joined after a leading `/`.
pub open spec fn route_of(p: Seq<char>) -> Seq<char> {
    let rest = after_first_slash(p);
    if rest.len() > 0 && rest.last() == '/' {
        seq!['/'] + rest.drop_last()
    } else {
        seq!['/'] + rest
    }
}

proof fn lemma_after_first_slash(p: Seq<char>, i: int)
    requires
        0 <= i <= p.len(),
        forall|j: int| 0 <= j < i ==> p[j] != '/',
    ensures
        after_first_slash(p) == after_first_slash(p.subrange(i, p.len() as int)),
    decreases i,
{
    if i > 0 {
        let q = p.subrange(1, p.len() as int);
        assert(p[0] != '/');
        assert forall|j: int| 0 <= j < i - 1 implies q[j] != '/' by {
            assert(q[j] == p[j + 1]);
        }
        lemma_after_first_slash(q, i - 1);
        assert(q.subrange(i - 1, q.len() as int) =~= p.subrange(i, p.len() as int));
    } else {
        assert(p.subrange(0, p.len() as int) =~= p);
    }
}

/// Normalizes a path into a route.
pub fn normalize_path(path: &str) -> (r: String)
    ensures
        r@ == route_of(path@),
{
    let n = path.unicode_len();
    let mut i: usize = 0;
    while i < n && path.get_char(i) != '/'
        invariant
            n == path@.len(),
            i <= n,
            forall|j: int| 0 <= j < i ==> path@[j] != '/',
        decreases n - i,
    {
        i = i + 1;
    }
    proof {
        lemma_after_first_slash(path@, i as int);
    }
    let start: usize = if i < n { i + 1 } else { n };
    proof {
        let q = path@.subrange(i as int, n as int);
        if i < n {
            assert(q[0] == '/');
            assert(q.subrange(1, q.len() as int) =~= path@.subrange(start as int, n as int));
        }
    }
    let mut end: usize = n;
    if start < n && path.get_char(n - 1) == '/' {
        end = n - 1;
    }
    let rest = path.substring_char(start, end);
    let mut r = String::from_str("/");
    r.append(rest);
    proof {
        reveal_strlit("/");
        assert(r@ =~= route_of(path@));
    }
    r
}

} // verus!
