//! The methods of the Greeter service, the request paths that name them, and
//! what the server does with a request path and with the responses and
//! response bodies of the method it routed to.

use vstd::prelude::*;

verus! {

/// A method of the Greeter service.
#[derive(Clone, Copy, Debug, PartialEq, Eq, Structural)]
pub enum Method {
    /// One request, one reply.
    SayHello,
    /// A stream of requests, one reply.
    CStreamSayHello,
    /// One request, a stream of replies.
    SStreamSayHello,
    /// A stream of requests, a stream of replies.
    BStreamSayHello,
}

/// The request path of `method`.
pub open spec fn method_path(method: Method) -> Seq<char> {
    match method {
        Method::SayHello => "/helloworld.Greeter/SayHello"@,
        Method::CStreamSayHello => "/helloworld.Greeter/CStreamSayHello"@,
        Method::SStreamSayHello => "/helloworld.Greeter/SStreamSayHello"@,
        Method::BStreamSayHello => "/helloworld.Greeter/BStreamSayHello"@,
    }
}

/// The method that the server runs for a request with the given path, if any.
pub open spec fn route_of(path: Seq<char>) -> Option<Method> {
    if path == method_path(Method::SayHello) {
        Some(Method::SayHello)
    } else if path == method_path(Method::CStreamSayHello) {
        Some(Method::CStreamSayHello)
    } else if path == method_path(Method::SStreamSayHello) {
        Some(Method::SStreamSayHello)
    } else if path == method_path(Method::BStreamSayHello) {
        Some(Method::BStreamSayHello)
    } else {
        None
    }
}

impl Method {
    /// The request path that names this method.
    pub fn path(&self) -> (p: &'static str)
        ensures
            p@ == method_path(*self),
    {
        match self {
            Method::SayHello => "/helloworld.Greeter/SayHello",
            Method::CStreamSayHello => "/helloworld.Greeter/CStreamSayHello",
            Method::SStreamSayHello => "/helloworld.Greeter/SStreamSayHello",
            Method::BStreamSayHello => "/helloworld.Greeter/BStreamSayHello",
        }
    }

    /// Whether the client sends a stream of requests.
    pub fn client_streams(&self) -> (b: bool)
        ensures
            b == (*self == Method::CStreamSayHello || *self == Method::BStreamSayHello),
    {
        match self {
            Method::CStreamSayHello | Method::BStreamSayHello => true,
            _ => false,
        }
    }

    /// Whether the server sends a stream of replies.
    pub fn server_streams(&self) -> (b: bool)
        ensures
            b == (*self == Method::SStreamSayHello || *self == Method::BStreamSayHello),
    {
        match self {
            Method::SStreamSayHello | Method::BStreamSayHello => true,
            _ => false,
        }
    }
}

/// Compares two texts with `<str as PartialEq>::eq`. Trusted: the result
/// tells whether they hold the same characters.
#[verifier::external_body]
fn str_eq(a: &str, b: &str) -> (r: bool)
    ensures
        r == (a@ == b@),
{
    a == b
}

/// The method that the server runs for a request with path `path`; `None`
/// for every path that names no method of the service.
pub fn route(path: &str) -> (m: Option<Method>)
    ensures
        m == route_of(path@),
{
    if str_eq(path, Method::SayHello.path()) {
        Some(Method::SayHello)
    } else if str_eq(path, Method::CStreamSayHello.path()) {
        Some(Method::CStreamSayHello)
    } else if str_eq(path, Method::SStreamSayHello.path()) {
        Some(Method::SStreamSayHello)
    } else if str_eq(path, Method::BStreamSayHello.path()) {
        Some(Method::BStreamSayHello)
    } else {
        None
    }
}

/// The server runs a method for a request exactly when the request's path is
/// that method's path.
pub proof fn lemma_route_inverts_path(path: Seq<char>, method: Method)
    ensures
        route_of(path) == Some(method) <==> path == method_path(method),
{
    reveal_strlit("/helloworld.Greeter/SayHello");
    reveal_strlit("/helloworld.Greeter/CStreamSayHello");
    reveal_strlit("/helloworld.Greeter/SStreamSayHello");
    reveal_strlit("/helloworld.Greeter/BStreamSayHello");
    let p0 = method_path(Method::SayHello);
    let p1 = method_path(Method::CStreamSayHello);
    let p2 = method_path(Method::SStreamSayHello);
    let p3 = method_path(Method::BStreamSayHello);
    assert(p0 != p1 && p0 != p2 && p0 != p3) by {
        assert(p0.len() != p1.len() && p0.len() != p2.len() && p0.len() != p3.len());
    }
    assert(p1 != p2) by {
        assert(p1[20] != p2[20]);
    }
    assert(p1 != p3) by {
        assert(p1[20] != p3[20]);
    }
    assert(p2 != p3) by {
        assert(p2[20] != p3[20]);
    }
}

/// The lengths of the four request paths.
proof fn reveal_method_paths()
    ensures
        method_path(Method::SayHello).len() == 28,
        method_path(Method::CStreamSayHello).len() == 35,
        method_path(Method::SStreamSayHello).len() == 35,
        method_path(Method::BStreamSayHello).len() == 35,
{
    reveal_strlit("/helloworld.Greeter/SayHello");
    reveal_strlit("/helloworld.Greeter/CStreamSayHello");
    reveal_strlit("/helloworld.Greeter/SStreamSayHello");
    reveal_strlit("/helloworld.Greeter/BStreamSayHello");
}

/// Any text added after a method's path (a trailing `/` among others) makes
/// a path that names no method.
pub proof fn lemma_extended_path_unknown(method: Method, extra: Seq<char>)
    requires
        extra.len() > 0,
    ensures
        route_of(method_path(method) + extra) == None::<Method>,
{
    reveal_strlit("/helloworld.Greeter/SayHello");
    reveal_strlit("/helloworld.Greeter/CStreamSayHello");
    reveal_strlit("/helloworld.Greeter/SStreamSayHello");
    reveal_strlit("/helloworld.Greeter/BStreamSayHello");
    reveal_method_paths();
    let q = method_path(method);
    let p = q + extra;
    assert(p[20] == q[20] && p[21] == q[21]);
    assert(p != method_path(Method::SayHello)) by {
        assert(p.len() > 28 || q.len() == 35);
    }
    assert(p != method_path(Method::CStreamSayHello)) by {
        if method == Method::SayHello {
            assert(p[20] != method_path(Method::CStreamSayHello)[20]);
        }
    }
    assert(p != method_path(Method::SStreamSayHello)) by {
        if method == Method::SayHello {
            assert(p[21] != method_path(Method::SStreamSayHello)[21]);
        }
    }
    assert(p != method_path(Method::BStreamSayHello)) by {
        if method == Method::SayHello {
            assert(p[20] != method_path(Method::BStreamSayHello)[20]);
        }
    }
}

/// Any text put before a method's path makes a path that names no method.
pub proof fn lemma_prefixed_path_unknown(method: Method, extra: Seq<char>)
    requires
        extra.len() > 0,
    ensures
        route_of(extra + method_path(method)) == None::<Method>,
{
    reveal_strlit("/helloworld.Greeter/SayHello");
    reveal_strlit("/helloworld.Greeter/CStreamSayHello");
    reveal_strlit("/helloworld.Greeter/SStreamSayHello");
    reveal_strlit("/helloworld.Greeter/BStreamSayHello");
    reveal_method_paths();
    let q = method_path(method);
    let p = extra + q;
    let k = extra.len() as int;
    assert(p[k] == q[0]);
    assert(p != method_path(Method::SayHello)) by {
        assert(p.len() > 28 || q.len() == 35);
    }
    assert(p != method_path(Method::CStreamSayHello)) by {
        if method == Method::SayHello && k == 7 {
            assert(p[7] != method_path(Method::CStreamSayHello)[7]);
        }
    }
    assert(p != method_path(Method::SStreamSayHello)) by {
        if method == Method::SayHello && k == 7 {
            assert(p[7] != method_path(Method::SStreamSayHello)[7]);
        }
    }
    assert(p != method_path(Method::BStreamSayHello)) by {
        if method == Method::SayHello && k == 7 {
            assert(p[7] != method_path(Method::BStreamSayHello)[7]);
        }
    }
}

/// The code of `c`, with ASCII capital letters taken as small ones.
pub open spec fn folded(c: char) -> u32 {
    if 'A' <= c && c <= 'Z' {
        (c as u32 + 32) as u32
    } else {
        c as u32
    }
}

/// Whether `p` and `q` differ at most in the case of ASCII letters.
pub open spec fn same_but_case(p: Seq<char>, q: Seq<char>) -> bool {
    p.len() == q.len() && forall|i: int| 0 <= i < p.len() ==> #[trigger] folded(p[i]) == folded(q[i])
}

/// A path that differs from a method's path only in the case of some
/// letters names no method.
pub proof fn lemma_case_variant_unknown(method: Method, path: Seq<char>)
    requires
        same_but_case(path, method_path(method)),
        path != method_path(method),
    ensures
        route_of(path) == None::<Method>,
{
    reveal_strlit("/helloworld.Greeter/SayHello");
    reveal_strlit("/helloworld.Greeter/CStreamSayHello");
    reveal_strlit("/helloworld.Greeter/SStreamSayHello");
    reveal_strlit("/helloworld.Greeter/BStreamSayHello");
    reveal_method_paths();
    let q = method_path(method);
    assert(folded(path[20]) == folded(q[20]));
    let c = method_path(Method::CStreamSayHello);
    let t = method_path(Method::SStreamSayHello);
    let b = method_path(Method::BStreamSayHello);
    assert(folded(c[20]) == 99 && folded(t[20]) == 115 && folded(b[20]) == 98);
    if route_of(path) is Some {
        lemma_route_inverts_path(path, route_of(path).unwrap());
    }
}

/// The text of `s` as `{:?}` writes it, from `<str as Debug>::fmt`.
pub uninterp spec fn debug_text(s: Seq<char>) -> Seq<char>;

/// Writes `s` with `format!("{:?}", s)`. Trusted: the result is
/// `debug_text(s)`, a function of the text alone (quoted, with escapes).
#[verifier::external_body]
fn debug_str(s: &str) -> (r: String)
    ensures
        r@ == debug_text(s@),
{
    format!("{:?}", s)
}

/// The message of the `Unimplemented` status that the server answers a
/// request for an unknown path with.
pub fn unknown_service_message(path: &str) -> (msg: String)
    ensures
        msg@ == "unknown service: "@ + debug_text(path@),
{
    let quoted = debug_str(path);
    let mut msg = String::from_str("unknown service: ");
    msg.append(quoted.as_str());
    msg
}

} // verus!
