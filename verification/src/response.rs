//! Responses as the idempotency store caches them.
//!
//! A completed publish command stores its entire response — status code,
//! headers and body — so that a retry can replay it byte for byte instead of
//! re-deriving it. The types here hold those three parts as plain values.

use vstd::prelude::*;

verus! {

use vstd::string::StrSliceExecFns;
use vstd::string::StringExecFns;
use vstd::string::StringSliceAdditionalSpecFns;

/// One response header, kept for byte-exact replay.
#[derive(Debug, PartialEq, Eq)]
pub struct HeaderPair {
    pub name: String,
    pub value: Vec<u8>,
}

/// Mathematical image of a header pair.
pub struct HeaderModel {
    pub name: Seq<char>,
    pub value: Seq<u8>,
}

impl View for HeaderPair {
    type V = HeaderModel;

    open spec fn view(&self) -> HeaderModel {
        HeaderModel { name: self.name@, value: self.value@ }
    }
}

/// A response of the command pipeline: status code, headers and body,
/// all as plain values so they can be cached and replayed verbatim.
#[derive(Debug, PartialEq, Eq)]
pub struct HttpResponse {
    pub status: u16,
    pub headers: Vec<HeaderPair>,
    pub body: Vec<u8>,
}

/// Mathematical image of a response.
pub struct ResponseModel {
    pub status: u16,
    pub headers: Seq<HeaderModel>,
    pub body: Seq<u8>,
}

impl View for HttpResponse {
    type V = ResponseModel;

    open spec fn view(&self) -> ResponseModel {
        ResponseModel {
            status: self.status,
            headers: self.headers@.map_values(|h: HeaderPair| h@),
            body: self.body@,
        }
    }
}

/// Byte-for-byte copy of a byte buffer.
pub(crate) fn clone_bytes(v: &Vec<u8>) -> (r: Vec<u8>)
    ensures
        r@ == v@,
{
    let mut r: Vec<u8> = Vec::new();
    let mut i: usize = 0;
    while i < v.len()
        invariant
            i <= v.len(),
            r@ == v@.subrange(0, i as int),
        decreases v.len() - i,
    {
        r.push(v[i]);
        proof {
            assert(r@ =~= v@.subrange(0, i + 1 as int));
        }
        i = i + 1;
    }
    proof {
        assert(r@ =~= v@);
    }
    r
}

impl Clone for HeaderPair {
    fn clone(&self) -> (r: Self)
        ensures
            r@ == self@,
    {
        HeaderPair { name: self.name.clone(), value: clone_bytes(&self.value) }
    }
}

fn clone_headers(v: &Vec<HeaderPair>) -> (r: Vec<HeaderPair>)
    ensures
        r@.map_values(|h: HeaderPair| h@) == v@.map_values(|h: HeaderPair| h@),
{
    let mut r: Vec<HeaderPair> = Vec::new();
    let mut i: usize = 0;
    while i < v.len()
        invariant
            i <= v.len(),
            r@.len() == i,
            forall|j: int| 0 <= j < i ==> r@[j]@ == v@[j]@,
        decreases v.len() - i,
    {
        r.push(v[i].clone());
        i = i + 1;
    }
    proof {
        assert(r@.map_values(|h: HeaderPair| h@) =~= v@.map_values(|h: HeaderPair| h@));
    }
    r
}

impl Clone for HttpResponse {
    fn clone(&self) -> (r: Self)
        ensures
            r@ == self@,
    {
        HttpResponse {
            status: self.status,
            headers: clone_headers(&self.headers),
            body: clone_bytes(&self.body),
        }
    }
}

/// A redirect response: status 303 with a single `location` header and an
/// empty body, as the publish pipeline returns on success.
pub fn see_other(location: &str) -> (r: HttpResponse)
    ensures
        r@ == see_other_model(location@, location.spec_bytes()),
{
    let mut headers: Vec<HeaderPair> = Vec::new();
    headers.push(HeaderPair { name: String::from_str("location"), value: location.as_bytes_vec() });
    let r = HttpResponse { status: 303, headers, body: Vec::new() };
    proof {
        assert(r@.headers =~= see_other_model(location@, location.spec_bytes()).headers);
        assert(r@ == see_other_model(location@, location.spec_bytes()));
    }
    r
}

/// The model of a 303 redirect to the given location.
pub open spec fn see_other_model(location: Seq<char>, location_bytes: Seq<u8>) -> ResponseModel {
    ResponseModel {
        status: 303u16,
        headers: seq![HeaderModel { name: "location"@, value: location_bytes }],
        body: Seq::empty(),
    }
}

} // verus!
