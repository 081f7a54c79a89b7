//! The host HTTP layer: `http_types` requests and responses, seen through
//! their header stores.
use http_types::{Request, Response, StatusCode};
use vstd::prelude::*;
use vstd::utf8::is_ascii_chars;

verus! {

#[verifier::external_type_specification]
#[verifier::external_body]
pub struct ExRequest(Request);

#[verifier::external_type_specification]
#[verifier::external_body]
pub struct ExResponse(Response);

/// The headers of a request: each (lower-case) name with its values in the
/// order they were received.
pub uninterp spec fn request_headers(r: Request) -> Map<Seq<char>, Seq<Seq<char>>>;

/// The headers of a response: each (lower-case) name with its values.
pub uninterp spec fn response_headers(r: Response) -> Map<Seq<char>, Seq<Seq<char>>>;

/// The status code of a response.
pub uninterp spec fn response_status(r: Response) -> u16;

/// ASCII lower-casing of one character; other characters are kept.
pub open spec fn lower_char(c: char) -> char {
    if 'A' <= c <= 'Z' {
        ((c as u8) + 32) as u8 as char
    } else {
        c
    }
}

/// The form under which a header name is stored: ASCII lower case.
pub open spec fn header_key(name: Seq<char>) -> Seq<char> {
    name.map_values(|c: char| lower_char(c))
}

/// Relies on `Request::header` (the name is lower-cased; it panics on a
/// non-ASCII name) and on `HeaderValues` keeping its values in order of
/// arrival.
#[verifier::external_body]
pub(crate) fn header_values<'a>(req: &'a Request, name: &str) -> (r: Option<Vec<&'a str>>)
    requires
        is_ascii_chars(name@),
    ensures
        match r {
            None => !request_headers(*req).contains_key(header_key(name@)),
            Some(v) => {
                &&& request_headers(*req).contains_key(header_key(name@))
                &&& v@.map_values(|s: &str| s@) == request_headers(*req)[header_key(name@)]
            },
        },
{
    req.header(name).map(|values| values[..].iter().map(|v| v.as_str()).collect())
}

/// Relies on `Response::new` with `StatusCode::SwitchingProtocols`: status
/// 101 and an empty header store.
#[verifier::external_body]
pub(crate) fn switching_protocols() -> (r: Response)
    ensures
        response_status(r) == 101,
        response_headers(r).dom() == Set::<Seq<char>>::empty(),
{
    Response::new(StatusCode::SwitchingProtocols)
}

/// Relies on `Response::insert_header`: the name's values are replaced by
/// the single given value. It panics on a non-ASCII name or value.
#[verifier::external_body]
pub(crate) fn insert_header(res: &mut Response, name: &str, value: &str)
    requires
        is_ascii_chars(name@),
        is_ascii_chars(value@),
    ensures
        response_headers(*final(res)) == response_headers(*old(res)).insert(
            header_key(name@),
            seq![value@],
        ),
        response_status(*final(res)) == response_status(*old(res)),
{
    res.insert_header(name, value);
}

} // verus!
