//! The request as the matchers see it.

use crate::text::{bytes_of, eq_ignore_case, path_segments, rows, same_ignoring_case, split_path};
use vstd::prelude::*;
use vstd::string::*;

verus! {

/// The request methods that a route can ask for.
#[derive(Clone, Copy, Debug, PartialEq, Eq, Structural)]
pub enum Method {
    Get,
    Post,
    Put,
    Delete,
    Head,
    Options,
    Patch,
    Connect,
    Trace,
}

/// One header line.
#[derive(Debug)]
pub struct Header {
    pub name: Vec<u8>,
    pub value: Vec<u8>,
}

/// A header line as a mathematical value.
pub ghost struct HeaderModel {
    pub name: Seq<u8>,
    pub value: Seq<u8>,
}

impl View for Header {
    type V = HeaderModel;

    open spec fn view(&self) -> HeaderModel {
        HeaderModel { name: self.name@, value: self.value@ }
    }
}

/// One request: its method, the segments of its path, its headers in the
/// order received, and its body as the chunks in which it arrived.
///
/// `declared` is the content length that the request announces, if it
/// announces one. `aborted` says that the body stream broke off after the
/// chunks held here, so that the body cannot be read to its end.
#[derive(Debug)]
pub struct Request {
    pub method: Method,
    pub segments: Vec<Vec<u8>>,
    pub headers: Vec<Header>,
    pub chunks: Vec<Vec<u8>>,
    pub declared: Option<u64>,
    pub aborted: bool,
}

/// A request as a mathematical value.
pub ghost struct RequestModel {
    pub method: Method,
    pub segments: Seq<Seq<u8>>,
    pub headers: Seq<HeaderModel>,
    pub chunks: Seq<Seq<u8>>,
    pub declared: Option<u64>,
    pub aborted: bool,
}

/// The header lines that a vector of headers holds.
pub open spec fn header_models(headers: Seq<Header>) -> Seq<HeaderModel> {
    Seq::new(headers.len(), |i: int| headers[i]@)
}

impl View for Request {
    type V = RequestModel;

    open spec fn view(&self) -> RequestModel {
        RequestModel {
            method: self.method,
            segments: rows(self.segments@),
            headers: header_models(self.headers@),
            chunks: rows(self.chunks@),
            declared: self.declared,
            aborted: self.aborted,
        }
    }
}

/// The value of the first header whose name is `name`, ASCII case ignored.
pub open spec fn header_value(headers: Seq<HeaderModel>, name: Seq<u8>) -> Option<Seq<u8>>
    decreases headers.len(),
{
    if headers.len() == 0 {
        None
    } else if same_ignoring_case(headers[0].name, name) {
        Some(headers[0].value)
    } else {
        header_value(headers.skip(1), name)
    }
}

impl Request {
    /// A request for `path` with no headers and an empty, complete body of
    /// undeclared length.
    pub fn new(method: Method, path: &str) -> (r: Request)
        ensures
            r@ == (RequestModel {
                method,
                segments: path_segments(path.spec_bytes()),
                headers: Seq::<HeaderModel>::empty(),
                chunks: Seq::<Seq<u8>>::empty(),
                declared: None,
                aborted: false,
            }),
    {
        let path_bytes = bytes_of(path);
        let r = Request {
            method,
            segments: split_path(&path_bytes),
            headers: Vec::new(),
            chunks: Vec::new(),
            declared: None,
            aborted: false,
        };
        assert(r@.headers =~= Seq::<HeaderModel>::empty());
        assert(r@.chunks =~= Seq::<Seq<u8>>::empty());
        r
    }

    /// The same request with one more header after those it has.
    pub fn header(self, name: &str, value: &str) -> (r: Request)
        ensures
            r@ == (RequestModel {
                headers: self@.headers.push(
                    HeaderModel { name: name.spec_bytes(), value: value.spec_bytes() },
                ),
                ..self@
            }),
    {
        let mut r = self;
        r.headers.push(Header { name: bytes_of(name), value: bytes_of(value) });
        assert(r@.headers =~= self@.headers.push(
            HeaderModel { name: name.spec_bytes(), value: value.spec_bytes() },
        ));
        r
    }

    /// The same request with `bytes` as its whole body, arrived in one
    /// chunk, and a declared length that says so.
    pub fn body(self, bytes: Vec<u8>) -> (r: Request)
        ensures
            r@ == (RequestModel {
                chunks: seq![bytes@],
                declared: Some(bytes.len() as u64),
                aborted: false,
                ..self@
            }),
    {
        let mut r = self;
        let n = bytes.len() as u64;
        let mut chunks: Vec<Vec<u8>> = Vec::new();
        chunks.push(bytes);
        r.chunks = chunks;
        r.declared = Some(n);
        r.aborted = false;
        assert(r@.chunks =~= seq![bytes@]);
        r
    }

    /// The same request with `chunks` as its body and no declared length.
    pub fn chunked(self, chunks: Vec<Vec<u8>>) -> (r: Request)
        ensures
            r@ == (RequestModel {
                chunks: rows(chunks@),
                declared: None,
                aborted: false,
                ..self@
            }),
    {
        let mut r = self;
        r.chunks = chunks;
        r.declared = None;
        r.aborted = false;
        r
    }

    /// The same request announcing a content length of `length`.
    pub fn declare(self, length: u64) -> (r: Request)
        ensures
            r@ == (RequestModel { declared: Some(length), ..self@ }),
    {
        let mut r = self;
        r.declared = Some(length);
        r
    }

    /// The same request with a body stream that breaks off after the chunks
    /// it holds.
    pub fn abort(self) -> (r: Request)
        ensures
            r@ == (RequestModel { aborted: true, ..self@ }),
    {
        let mut r = self;
        r.aborted = true;
        r
    }

    /// The value of the first header named `name`, ASCII case ignored.
    pub fn find_header(&self, name: &Vec<u8>) -> (r: Option<&Vec<u8>>)
        ensures
            r matches Some(v) ==> header_value(self@.headers, name@) == Some(v@),
            r is None ==> header_value(self@.headers, name@) is None,
    {
        let ghost all = self@.headers;
        let mut i: usize = 0;
        assert(all.skip(0) =~= all);
        while i < self.headers.len()
            invariant
                i <= self.headers.len(),
                all == self@.headers,
                all.len() == self.headers.len(),
                header_value(all, name@) == header_value(all.skip(i as int), name@),
            decreases self.headers.len() - i,
        {
            let ghost rest = all.skip(i as int);
            assert(rest[0] == self.headers[i as int]@);
            assert(rest.skip(1) =~= all.skip(i + 1));
            if eq_ignore_case(&self.headers[i].name, name) {
                return Some(&self.headers[i].value);
            }
            i += 1;
        }
        None
    }
}

} // verus!
