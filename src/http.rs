//! Transport-neutral HTTP request and response values.
use vstd::prelude::*;

verus! {

#[derive(Debug, Clone, Copy, PartialEq, Eq, Structural)]
pub enum Method {
    Get,
    Post,
    Put,
    Delete,
}

pub open spec fn method_name(m: Method) -> Seq<char> {
    match m {
        Method::Get => "GET"@,
        Method::Post => "POST"@,
        Method::Put => "PUT"@,
        Method::Delete => "DELETE"@,
    }
}

impl Method {
    pub fn as_str(&self) -> (r: &'static str)
        ensures
            r@ == method_name(*self),
    {
        match self {
            Method::Get => "GET",
            Method::Post => "POST",
            Method::Put => "PUT",
            Method::Delete => "DELETE",
        }
    }
}

/// A header as (name, value) text.
pub type HeaderView = (Seq<char>, Seq<char>);

pub open spec fn headers_view(h: Seq<(String, String)>) -> Seq<HeaderView> {
    h.map_values(|p: (String, String)| (p.0@, p.1@))
}

pub open spec fn body_view(b: Option<Vec<u8>>) -> Option<Seq<u8>> {
    match b {
        Some(v) => Some(v@),
        None => None,
    }
}

/// An outgoing request.
#[derive(Debug, Clone)]
pub struct HttpRequest {
    pub method: Method,
    pub url: String,
    pub headers: Vec<(String, String)>,
    pub body: Option<Vec<u8>>,
}

/// A copy of a byte slice.
pub fn to_bytes(b: &[u8]) -> (r: Vec<u8>)
    ensures
        r@ == b@,
{
    let mut out: Vec<u8> = Vec::new();
    out.extend_from_slice(b);
    out
}

impl HttpRequest {
    pub fn get(url: &str) -> (r: Self)
        ensures
            r.method == Method::Get,
            r.url@ == url@,
            r.headers@.len() == 0,
            r.body is None,
    {
        HttpRequest { method: Method::Get, url: String::from_str(url), headers: Vec::new(), body: None }
    }

    pub fn post(url: &str, body: &[u8]) -> (r: Self)
        ensures
            r.method == Method::Post,
            r.url@ == url@,
            r.headers@.len() == 0,
            body_view(r.body) == Some(body@),
    {
        HttpRequest {
            method: Method::Post,
            url: String::from_str(url),
            headers: Vec::new(),
            body: Some(to_bytes(body)),
        }
    }

    pub fn with_header(self, name: &str, value: &str) -> (r: Self)
        ensures
            r.method == self.method,
            r.url@ == self.url@,
            headers_view(r.headers@) == headers_view(self.headers@).push((name@, value@)),
            body_view(r.body) == body_view(self.body),
    {
        let mut out = self;
        let ghost before = out.headers@;
        out.headers.push((String::from_str(name), String::from_str(value)));
        assert(headers_view(out.headers@) =~= headers_view(before).push((name@, value@)));
        out
    }
}

/// A received response.
#[derive(Debug, Clone)]
pub struct HttpResponse {
    pub status: u16,
    pub headers: Vec<(String, String)>,
    pub body: Vec<u8>,
}

pub open spec fn is_upper(c: char) -> bool {
    'A' <= c <= 'Z'
}

/// Equality of two characters up to ASCII case.
pub open spec fn same_letter(a: char, b: char) -> bool {
    a == b || (is_upper(a) && a as u32 + 32 == b as u32) || (is_upper(b) && b as u32 + 32
        == a as u32)
}

/// Equality of two strings up to ASCII case.
pub open spec fn eq_ignore_case(a: Seq<char>, b: Seq<char>) -> bool {
    a.len() == b.len() && forall|i: int| 0 <= i < a.len() ==> same_letter(#[trigger] a[i], b[i])
}

/// Index of the first header named `name`, ASCII case ignored.
pub open spec fn header_index(h: Seq<HeaderView>, name: Seq<char>, i: int) -> Option<int>
    decreases h.len() - i,
{
    if i < 0 || i >= h.len() {
        None
    } else if eq_ignore_case(h[i].0, name) {
        Some(i)
    } else {
        header_index(h, name, i + 1)
    }
}

fn same_letter_exec(a: char, b: char) -> (r: bool)
    ensures
        r == same_letter(a, b),
{
    let x = a as u32;
    let y = b as u32;
    x == y || ('A' <= a && a <= 'Z' && x + 32 == y) || ('A' <= b && b <= 'Z' && y + 32 == x)
}

/// Equality of two strings up to ASCII case.
pub fn eq_ignore_ascii_case(a: &str, b: &str) -> (r: bool)
    ensures
        r == eq_ignore_case(a@, b@),
{
    let n = a.unicode_len();
    if n != b.unicode_len() {
        return false;
    }
    let mut i: usize = 0;
    while i < n
        invariant
            n == a@.len(),
            n == b@.len(),
            i <= n,
            forall|k: int| 0 <= k < i ==> same_letter(#[trigger] a@[k], b@[k]),
        decreases n - i,
    {
        if !same_letter_exec(a.get_char(i), b.get_char(i)) {
            return false;
        }
        i = i + 1;
    }
    true
}

impl HttpResponse {
    pub fn ok(body: &[u8]) -> (r: Self)
        ensures
            r.status == 200,
            r.headers@.len() == 0,
            r.body@ == body@,
    {
        HttpResponse { status: 200, headers: Vec::new(), body: to_bytes(body) }
    }

    pub fn with_status(self, status: u16) -> (r: Self)
        ensures
            r.status == status,
            headers_view(r.headers@) == headers_view(self.headers@),
            r.body@ == self.body@,
    {
        let mut out = self;
        out.status = status;
        out
    }

    pub fn with_header(self, name: &str, value: &str) -> (r: Self)
        ensures
            r.status == self.status,
            headers_view(r.headers@) == headers_view(self.headers@).push((name@, value@)),
            r.body@ == self.body@,
    {
        let mut out = self;
        let ghost before = out.headers@;
        out.headers.push((String::from_str(name), String::from_str(value)));
        assert(headers_view(out.headers@) =~= headers_view(before).push((name@, value@)));
        out
    }

    /// The value of the first header named `name`, ASCII case ignored.
    pub fn header(&self, name: &str) -> (r: Option<&str>)
        ensures
            match header_index(headers_view(self.headers@), name@, 0) {
                Some(i) => r matches Some(v) && v@ == self.headers@[i].1@,
                None => r is None,
            },
    {
        let ghost h = headers_view(self.headers@);
        let mut i: usize = 0;
        while i < self.headers.len()
            invariant
                i <= self.headers@.len(),
                h == headers_view(self.headers@),
                header_index(h, name@, 0) == header_index(h, name@, i as int),
            decreases self.headers@.len() - i,
        {
            if eq_ignore_ascii_case(self.headers[i].0.as_str(), name) {
                return Some(self.headers[i].1.as_str());
            }
            i = i + 1;
        }
        None
    }
}

} // verus!
