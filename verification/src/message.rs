//! Requests and response heads as the engine sees them: plain data.

use vstd::prelude::*;
use vstd::string::StringExecFns;
use crate::text::{eq_ignoring_case, same_ignoring_case, same_text};

verus! {

pub const OK: u16 = 200;

pub const CREATED: u16 = 201;

pub const ACCEPTED: u16 = 202;

pub const NO_CONTENT: u16 = 204;

pub const MULTIPLE_CHOICES: u16 = 300;

pub const MOVED_PERMANENTLY: u16 = 301;

pub const NOT_MODIFIED: u16 = 304;

pub const TEMPORARY_REDIRECT: u16 = 307;

pub const BAD_REQUEST: u16 = 400;

pub const UNAUTHORIZED: u16 = 401;

pub const FORBIDDEN: u16 = 403;

pub const NOT_FOUND: u16 = 404;

pub const METHOD_NOT_ALLOWED: u16 = 405;

pub const NOT_ACCEPTABLE: u16 = 406;

pub const CONFLICT: u16 = 409;

pub const GONE: u16 = 410;

pub const PRECONDITION_FAILED: u16 = 412;

pub const PAYLOAD_TOO_LARGE: u16 = 413;

pub const URI_TOO_LONG: u16 = 414;

pub const UNSUPPORTED_MEDIA_TYPE: u16 = 415;

pub const INTERNAL_SERVER_ERROR: u16 = 500;

pub const NOT_IMPLEMENTED: u16 = 501;

pub const SERVICE_UNAVAILABLE: u16 = 503;

/// A request method.
#[derive(Debug)]
pub enum Method {
    Get,
    Head,
    Post,
    Put,
    Delete,
    Trace,
    Connect,
    Options,
    Patch,
    /// Any other method, by its name.
    Extension(String),
}

/// What a method is in contracts.
pub enum MethodView {
    Get,
    Head,
    Post,
    Put,
    Delete,
    Trace,
    Connect,
    Options,
    Patch,
    Extension(Seq<char>),
}

impl View for Method {
    type V = MethodView;

    open spec fn view(&self) -> MethodView {
        match self {
            Method::Get => MethodView::Get,
            Method::Head => MethodView::Head,
            Method::Post => MethodView::Post,
            Method::Put => MethodView::Put,
            Method::Delete => MethodView::Delete,
            Method::Trace => MethodView::Trace,
            Method::Connect => MethodView::Connect,
            Method::Options => MethodView::Options,
            Method::Patch => MethodView::Patch,
            Method::Extension(name) => MethodView::Extension(name@),
        }
    }
}

/// The name of a method as a request line carries it.
pub open spec fn method_name(m: MethodView) -> Seq<char> {
    match m {
        MethodView::Get => "GET"@,
        MethodView::Head => "HEAD"@,
        MethodView::Post => "POST"@,
        MethodView::Put => "PUT"@,
        MethodView::Delete => "DELETE"@,
        MethodView::Trace => "TRACE"@,
        MethodView::Connect => "CONNECT"@,
        MethodView::Options => "OPTIONS"@,
        MethodView::Patch => "PATCH"@,
        MethodView::Extension(name) => name,
    }
}

/// The method that a name stands for: one of the nine methods that have
/// a variant of their own where the name is theirs, letter for letter,
/// and an extension method of that name else.
pub open spec fn method_named(name: Seq<char>) -> MethodView {
    if name == "GET"@ {
        MethodView::Get
    } else if name == "HEAD"@ {
        MethodView::Head
    } else if name == "POST"@ {
        MethodView::Post
    } else if name == "PUT"@ {
        MethodView::Put
    } else if name == "DELETE"@ {
        MethodView::Delete
    } else if name == "TRACE"@ {
        MethodView::Trace
    } else if name == "CONNECT"@ {
        MethodView::Connect
    } else if name == "OPTIONS"@ {
        MethodView::Options
    } else if name == "PATCH"@ {
        MethodView::Patch
    } else {
        MethodView::Extension(name)
    }
}

/// Whether `m` is among `methods`.
pub open spec fn lists_method(methods: Seq<Method>, m: MethodView) -> bool {
    exists|i: int| 0 <= i < methods.len() && (#[trigger] methods[i])@ == m
}

/// The names of the first `n` methods, separated by a comma and a space.
pub open spec fn joined_names(methods: Seq<Method>, n: int) -> Seq<char>
    decreases n,
{
    if n <= 0 {
        Seq::empty()
    } else if n == 1 {
        method_name(methods[0]@)
    } else {
        joined_names(methods, n - 1) + ", "@ + method_name(methods[n - 1]@)
    }
}

impl Method {
    /// Whether both are the same method.
    pub fn same(&self, other: &Method) -> (r: bool)
        ensures
            r == (self@ == other@),
    {
        match (self, other) {
            (Method::Get, Method::Get) => true,
            (Method::Head, Method::Head) => true,
            (Method::Post, Method::Post) => true,
            (Method::Put, Method::Put) => true,
            (Method::Delete, Method::Delete) => true,
            (Method::Trace, Method::Trace) => true,
            (Method::Connect, Method::Connect) => true,
            (Method::Options, Method::Options) => true,
            (Method::Patch, Method::Patch) => true,
            (Method::Extension(a), Method::Extension(b)) => *a == *b,
            _ => false,
        }
    }

    /// The name of the method.
    pub fn as_str(&self) -> (r: &str)
        ensures
            r@ == method_name(self@),
    {
        match self {
            Method::Get => "GET",
            Method::Head => "HEAD",
            Method::Post => "POST",
            Method::Put => "PUT",
            Method::Delete => "DELETE",
            Method::Trace => "TRACE",
            Method::Connect => "CONNECT",
            Method::Options => "OPTIONS",
            Method::Patch => "PATCH",
            Method::Extension(name) => name.as_str(),
        }
    }

    /// The method that a name stands for, as `method_named` says: the
    /// method whose name it is. No name gives an extension method that
    /// bears the name of one of the other nine.
    pub fn from_name(name: &str) -> (r: Method)
        ensures
            r@ == method_named(name@),
            method_name(r@) == name@,
    {
        if same_text(name, "GET") {
            Method::Get
        } else if same_text(name, "HEAD") {
            Method::Head
        } else if same_text(name, "POST") {
            Method::Post
        } else if same_text(name, "PUT") {
            Method::Put
        } else if same_text(name, "DELETE") {
            Method::Delete
        } else if same_text(name, "TRACE") {
            Method::Trace
        } else if same_text(name, "CONNECT") {
            Method::Connect
        } else if same_text(name, "OPTIONS") {
            Method::Options
        } else if same_text(name, "PATCH") {
            Method::Patch
        } else {
            Method::Extension(name.to_owned())
        }
    }
}

/// Whether `method` is among `methods`.
pub fn contains_method(methods: &Vec<Method>, method: &Method) -> (r: bool)
    ensures
        r == lists_method(methods@, method@),
{
    let mut i: usize = 0;
    while i < methods.len()
        invariant
            i <= methods.len(),
            forall|k: int| 0 <= k < i ==> (#[trigger] methods@[k])@ != method@,
        decreases methods.len() - i,
    {
        if methods[i].same(method) {
            return true;
        }
        i += 1;
    }
    false
}

/// The names of `methods`, separated by a comma and a space: the value of
/// an `Allow` header.
pub fn join_methods(methods: &Vec<Method>) -> (r: String)
    ensures
        r@ == joined_names(methods@, methods.len() as int),
{
    let mut out = String::new();
    let mut i: usize = 0;
    while i < methods.len()
        invariant
            i <= methods.len(),
            out@ == joined_names(methods@, i as int),
        decreases methods.len() - i,
    {
        if i > 0 {
            out.append(", ");
        }
        out.append(methods[i].as_str());
        assert(out@ =~= joined_names(methods@, i as int + 1));
        i += 1;
    }
    out
}

/// A header field: a name and a value.
#[derive(Debug)]
pub struct Header {
    pub name: String,
    pub value: String,
}

/// What a header field is in contracts.
pub struct HeaderView {
    pub name: Seq<char>,
    pub value: Seq<char>,
}

impl View for Header {
    type V = HeaderView;

    open spec fn view(&self) -> HeaderView {
        HeaderView { name: self.name@, value: self.value@ }
    }
}

impl Header {
    /// A copy of this field.
    pub fn duplicate(&self) -> (r: Header)
        ensures
            r@ == self@,
    {
        Header { name: self.name.clone(), value: self.value.clone() }
    }
}

/// The views of header fields.
pub open spec fn header_views(headers: Seq<Header>) -> Seq<HeaderView> {
    headers.map_values(|h: Header| h@)
}

/// The position of the first field at or after `from` whose name is `name`
/// up to letter case.
pub open spec fn header_position(headers: Seq<HeaderView>, name: Seq<char>, from: int) -> Option<
    int,
>
    decreases headers.len() - from,
{
    if from < 0 || from >= headers.len() {
        None
    } else if same_ignoring_case(headers[from].name, name) {
        Some(from)
    } else {
        header_position(headers, name, from + 1)
    }
}

/// The value of the first field whose name is `name` up to letter case.
pub open spec fn header_value(headers: Seq<HeaderView>, name: Seq<char>) -> Option<Seq<char>> {
    match header_position(headers, name, 0) {
        Some(i) => Some(headers[i].value),
        None => None,
    }
}

/// Finds the first field named `name`, whatever the case of its letters.
pub fn find_header<'a>(headers: &'a Vec<Header>, name: &str) -> (r: Option<&'a str>)
    ensures
        match r {
            Some(v) => header_value(header_views(headers@), name@) == Some(v@),
            None => header_value(header_views(headers@), name@) is None,
        },
{
    let ghost views = header_views(headers@);
    let mut i: usize = 0;
    while i < headers.len()
        invariant
            i <= headers.len(),
            views == header_views(headers@),
            header_position(views, name@, 0) == header_position(views, name@, i as int),
        decreases headers.len() - i,
    {
        assert(views[i as int] == headers@[i as int]@);
        if eq_ignoring_case(headers[i].name.as_str(), name) {
            return Some(headers[i].value.as_str());
        }
        i += 1;
    }
    None
}

/// A parsed request: method, target, header fields in the order received,
/// the chunks of its body, and the time at which it was received, in
/// seconds since 1970-01-01 00:00:00 GMT.
#[derive(Debug)]
pub struct Request {
    pub method: Method,
    pub uri: String,
    pub headers: Vec<Header>,
    pub body: Vec<Vec<u8>>,
    pub received_at: u64,
}

/// What a request is in contracts.
pub struct RequestView {
    pub method: MethodView,
    pub uri: Seq<char>,
    pub headers: Seq<HeaderView>,
    pub body: Seq<Vec<u8>>,
    pub received_at: nat,
}

impl View for Request {
    type V = RequestView;

    open spec fn view(&self) -> RequestView {
        RequestView {
            method: self.method@,
            uri: self.uri@,
            headers: header_views(self.headers@),
            body: self.body@,
            received_at: self.received_at as nat,
        }
    }
}

impl Request {
    /// A request without header fields and without a body.
    pub fn new(method: Method, uri: &str) -> (r: Request)
        ensures
            r@.method == method@,
            r@.uri == uri@,
            r@.headers == Seq::<HeaderView>::empty(),
            r@.body == Seq::<Vec<u8>>::empty(),
            r@.received_at == 0,
    {
        let r = Request {
            method,
            uri: String::from_str(uri),
            headers: Vec::new(),
            body: Vec::new(),
            received_at: 0,
        };
        assert(header_views(r.headers@) =~= Seq::<HeaderView>::empty());
        r
    }

    /// The same request with one more header field at its end.
    pub fn header(self, name: &str, value: &str) -> (r: Request)
        ensures
            r@ == (RequestView {
                headers: self@.headers.push(HeaderView { name: name@, value: value@ }),
                ..self@
            }),
    {
        let mut r = self;
        r.headers.push(Header { name: String::from_str(name), value: String::from_str(value) });
        assert(header_views(r.headers@) =~= header_views(self.headers@).push(
            HeaderView { name: name@, value: value@ },
        ));
        r
    }

    /// The value of the first header field named `name`.
    pub fn header_named(&self, name: &str) -> (r: Option<&str>)
        ensures
            match r {
                Some(v) => header_value(self@.headers, name@) == Some(v@),
                None => header_value(self@.headers, name@) is None,
            },
    {
        find_header(&self.headers, name)
    }

    /// Takes the body out of the request: its chunks in the order
    /// received. What stays behind is an empty body, so a body is consumed
    /// once.
    pub fn take_body(&mut self) -> (r: Vec<Vec<u8>>)
        ensures
            r@ == old(self)@.body,
            final(self)@ == (RequestView { body: Seq::empty(), ..old(self)@ }),
    {
        let mut taken: Vec<Vec<u8>> = Vec::new();
        core::mem::swap(&mut self.body, &mut taken);
        taken
    }
}

/// The head of a response: a status code and header fields.
#[derive(Debug)]
pub struct ResponseHead {
    pub status: u16,
    pub headers: Vec<Header>,
}

/// What a response head is in contracts.
pub struct ResponseHeadView {
    pub status: u16,
    pub headers: Seq<HeaderView>,
}

impl View for ResponseHead {
    type V = ResponseHeadView;

    open spec fn view(&self) -> ResponseHeadView {
        ResponseHeadView { status: self.status, headers: header_views(self.headers@) }
    }
}

/// A response that is not sent yet: a status, unset at first, and the
/// header fields gathered so far.
#[derive(Debug)]
pub struct ResponseBuilder {
    status: Option<u16>,
    headers: Vec<Header>,
}

/// What a response builder is in contracts.
pub struct ResponseBuilderView {
    pub status: Option<u16>,
    pub headers: Seq<HeaderView>,
}

impl View for ResponseBuilder {
    type V = ResponseBuilderView;

    closed spec fn view(&self) -> ResponseBuilderView {
        ResponseBuilderView { status: self.status, headers: header_views(self.headers@) }
    }
}

/// The head that a builder stands for: its status, or 200 where none was
/// set, and its header fields.
pub open spec fn head_of(b: ResponseBuilderView) -> ResponseHeadView {
    ResponseHeadView {
        status: match b.status {
            Some(s) => s,
            None => 200,
        },
        headers: b.headers,
    }
}

impl ResponseBuilder {
    /// A builder with no status and no header fields.
    pub fn new() -> (r: ResponseBuilder)
        ensures
            r@ == (ResponseBuilderView { status: None, headers: Seq::empty() }),
    {
        let r = ResponseBuilder { status: None, headers: Vec::new() };
        assert(header_views(r.headers@) =~= Seq::<HeaderView>::empty());
        r
    }

    /// Sets the status.
    pub fn status(&mut self, code: u16)
        ensures
            final(self)@ == (ResponseBuilderView { status: Some(code), ..old(self)@ }),
    {
        self.status = Some(code);
    }

    /// Adds a header field at the end.
    pub fn header(&mut self, name: &str, value: &str)
        ensures
            final(self)@ == (ResponseBuilderView {
                headers: old(self)@.headers.push(HeaderView { name: name@, value: value@ }),
                ..old(self)@
            }),
    {
        self.headers.push(Header { name: String::from_str(name), value: String::from_str(value) });
        assert(header_views(self.headers@) =~= header_views(old(self).headers@).push(
            HeaderView { name: name@, value: value@ },
        ));
    }

    /// The value of the first header field named `name`.
    pub fn header_named(&self, name: &str) -> (r: Option<&str>)
        ensures
            match r {
                Some(v) => header_value(self@.headers, name@) == Some(v@),
                None => header_value(self@.headers, name@) is None,
            },
    {
        find_header(&self.headers, name)
    }

    /// The head that this builder stands for.
    pub fn head(self) -> (r: ResponseHead)
        ensures
            r@ == head_of(self@),
    {
        let status = match self.status {
            Some(s) => s,
            None => OK,
        };
        ResponseHead { status, headers: self.headers }
    }
}

} // verus!
