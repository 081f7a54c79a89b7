//! Validation of an upgrade request and construction of the 101 response.
use crate::accept::{accept_token, convert_key, lemma_base64_ascii, sha1_digest, guid_bytes};
use crate::http::{
    header_key, header_values, insert_header, request_headers, response_headers,
    response_status, switching_protocols,
};
use crate::tokens::{extensions_of, parse_extensions, parse_protocols, protocols_of, views};
use http_types::{Request, Response};
use vstd::prelude::*;
use vstd::string::StringSliceAdditionalSpecFns;
use vstd::utf8::{encode_utf8, is_ascii_chars};

verus! {

/// Why a request is not a valid WebSocket upgrade.
#[derive(Debug)]
pub enum HandshakeError {
    MissingHeader(&'static str),
    InvalidHeaderValue { header: &'static str, expected: Option<&'static str>, found: String },
}

impl HandshakeError {
    /// A human-readable description of the error.
    pub fn message(&self) -> (r: String)
        ensures
            r@ == error_message(self@),
    {
        match self {
            HandshakeError::MissingHeader(header) => {
                String::from_str("Missing required header `").concat(header).concat("`")
            },
            HandshakeError::InvalidHeaderValue { header, expected, found } => {
                let text = String::from_str("Invalid value `").concat(found.as_str()).concat(
                    "` for header `",
                ).concat(header).concat("`");
                match expected {
                    Some(e) => text.concat(", expected `").concat(e).concat("`"),
                    None => text,
                }
            },
        }
    }
}

/// The text that describes an error.
pub open spec fn error_message(e: ErrorModel) -> Seq<char> {
    match e {
        ErrorModel::MissingHeader(h) => "Missing required header `"@ + h + "`"@,
        ErrorModel::InvalidHeaderValue { header, expected, found } => {
            let text = "Invalid value `"@ + found + "` for header `"@ + header + "`"@;
            match expected {
                Some(x) => text + ", expected `"@ + x + "`"@,
                None => text,
            }
        },
    }
}

/// The abstract value of a [`HandshakeError`].
pub enum ErrorModel {
    MissingHeader(Seq<char>),
    InvalidHeaderValue { header: Seq<char>, expected: Option<Seq<char>>, found: Seq<char> },
}

impl View for HandshakeError {
    type V = ErrorModel;

    open spec fn view(&self) -> ErrorModel {
        match self {
            HandshakeError::MissingHeader(h) => ErrorModel::MissingHeader(h@),
            HandshakeError::InvalidHeaderValue { header, expected, found } => {
                ErrorModel::InvalidHeaderValue {
                    header: header@,
                    expected: match expected {
                        Some(e) => Some(e@),
                        None => None,
                    },
                    found: found@,
                }
            },
        }
    }
}

/// A validated handshake: the client key and the requested extensions and
/// subprotocols, all borrowed from the request.
pub struct HandshakeInfo<'a> {
    key: &'a str,
    extensions: Vec<&'a str>,
    protocols: Vec<&'a str>,
}

/// The abstract value of a [`HandshakeInfo`].
pub struct HandshakeModel {
    pub key: Seq<char>,
    pub extensions: Seq<Seq<char>>,
    pub protocols: Seq<Seq<char>>,
}

impl<'a> View for HandshakeInfo<'a> {
    type V = HandshakeModel;

    closed spec fn view(&self) -> HandshakeModel {
        HandshakeModel {
            key: self.key@,
            extensions: views(self.extensions@),
            protocols: views(self.protocols@),
        }
    }
}

/// The last value of header `name`, if the header is present with a value.
pub open spec fn last_value(h: Map<Seq<char>, Seq<Seq<char>>>, name: Seq<char>) -> Option<Seq<char>> {
    if h.contains_key(header_key(name)) && h[header_key(name)].len() > 0 {
        Some(h[header_key(name)].last())
    } else {
        None
    }
}

/// All values of header `name` in order of arrival; none if it is absent.
pub open spec fn all_values(h: Map<Seq<char>, Seq<Seq<char>>>, name: Seq<char>) -> Seq<Seq<char>> {
    if h.contains_key(header_key(name)) {
        h[header_key(name)]
    } else {
        seq![]
    }
}

/// The failure of the check that the last value of `name` is exactly
/// `expected`, or `None` if it passes.
pub open spec fn header_check(
    h: Map<Seq<char>, Seq<Seq<char>>>,
    name: Seq<char>,
    expected: Seq<char>,
) -> Option<ErrorModel> {
    match last_value(h, name) {
        None => Some(ErrorModel::MissingHeader(name)),
        Some(v) => if v == expected {
            None
        } else {
            Some(ErrorModel::InvalidHeaderValue { header: name, expected: Some(expected), found: v })
        },
    }
}

/// The result of validating a request with headers `h`: the checks run in
/// a fixed order and the first failure is reported.
pub open spec fn handshake_outcome(h: Map<Seq<char>, Seq<Seq<char>>>) -> Result<
    HandshakeModel,
    ErrorModel,
> {
    if let Some(e) = header_check(h, "Connection"@, "Upgrade"@) {
        Err(e)
    } else if let Some(e) = header_check(h, "Upgrade"@, "websocket"@) {
        Err(e)
    } else if let Some(e) = header_check(h, "Sec-WebSocket-Version"@, "13"@) {
        Err(e)
    } else if let Some(k) = last_value(h, "Sec-WebSocket-Key"@) {
        Ok(
            HandshakeModel {
                key: k,
                extensions: extensions_of(all_values(h, "Sec-WebSocket-Extensions"@)),
                protocols: protocols_of(all_values(h, "Sec-WebSocket-Protocol"@)),
            },
        )
    } else {
        Err(ErrorModel::MissingHeader("Sec-WebSocket-Key"@))
    }
}

/// The headers of the response to a handshake whose client key is `key`.
pub open spec fn response_headers_for(key: Seq<char>) -> Map<Seq<char>, Seq<Seq<char>>> {
    Map::empty().insert(header_key("Upgrade"@), seq!["websocket"@]).insert(
        header_key("Connection"@),
        seq!["Upgrade"@],
    ).insert(header_key("Sec-WebSocket-Accept"@), seq![accept_token(encode_utf8(key))])
}

/// The last value of header `name` of `req`.
fn last_header_value<'a>(req: &'a Request, name: &'static str) -> (r: Option<&'a str>)
    requires
        is_ascii_chars(name@),
    ensures
        match r {
            None => last_value(request_headers(*req), name@) is None,
            Some(v) => last_value(request_headers(*req), name@) == Some(v@),
        },
{
    match header_values(req, name) {
        None => None,
        Some(values) => {
            if values.len() == 0 {
                proof {
                    assert(views(values@).len() == 0);
                }
                None
            } else {
                let v = values[values.len() - 1];
                proof {
                    assert(views(values@).last() == v@);
                }
                Some(v)
            }
        },
    }
}

/// All values of header `name` of `req`, in order of arrival.
fn all_header_values<'a>(req: &'a Request, name: &'static str) -> (r: Vec<&'a str>)
    requires
        is_ascii_chars(name@),
    ensures
        views(r@) == all_values(request_headers(*req), name@),
{
    match header_values(req, name) {
        None => {
            let v: Vec<&'a str> = Vec::new();
            proof {
                assert(views(v@) =~= Seq::<Seq<char>>::empty());
            }
            v
        },
        Some(values) => values,
    }
}

/// Checks that the last value of `header` is exactly `expected`.
fn assert_header(req: &Request, header: &'static str, expected: &'static str) -> (r: Result<
    (),
    HandshakeError,
>)
    requires
        is_ascii_chars(header@),
    ensures
        match r {
            Ok(()) => header_check(request_headers(*req), header@, expected@) is None,
            Err(e) => header_check(request_headers(*req), header@, expected@) == Some(e@),
        },
{
    match last_header_value(req, header) {
        None => Err(HandshakeError::MissingHeader(header)),
        Some(value) => {
            let found = value.to_owned();
            if found == expected.to_owned() {
                Ok(())
            } else {
                Err(HandshakeError::InvalidHeaderValue { header, expected: Some(expected), found })
            }
        },
    }
}

/// Validates the upgrade headers of `request`: `Connection`, `Upgrade`,
/// `Sec-WebSocket-Version` and `Sec-WebSocket-Key`, in that order, then
/// collects the requested extensions and subprotocols.
pub fn check_request_headers(request: &Request) -> (r: Result<HandshakeInfo, HandshakeError>)
    ensures
        match r {
            Ok(info) => handshake_outcome(request_headers(*request)) == Ok::<
                HandshakeModel,
                ErrorModel,
            >(info@),
            Err(e) => handshake_outcome(request_headers(*request)) == Err::<
                HandshakeModel,
                ErrorModel,
            >(e@),
        },
{
    proof {
        reveal_strlit("Connection");
        reveal_strlit("Upgrade");
        reveal_strlit("Sec-WebSocket-Version");
        reveal_strlit("Sec-WebSocket-Key");
        reveal_strlit("Sec-WebSocket-Extensions");
        reveal_strlit("Sec-WebSocket-Protocol");
    }
    match assert_header(request, "Connection", "Upgrade") {
        Err(e) => {
            return Err(e);
        },
        Ok(()) => {},
    }
    match assert_header(request, "Upgrade", "websocket") {
        Err(e) => {
            return Err(e);
        },
        Ok(()) => {},
    }
    match assert_header(request, "Sec-WebSocket-Version", "13") {
        Err(e) => {
            return Err(e);
        },
        Ok(()) => {},
    }
    let key = match last_header_value(request, "Sec-WebSocket-Key") {
        None => {
            return Err(HandshakeError::MissingHeader("Sec-WebSocket-Key"));
        },
        Some(k) => k,
    };
    let extensions = parse_extensions(&all_header_values(request, "Sec-WebSocket-Extensions"));
    let protocols = parse_protocols(&all_header_values(request, "Sec-WebSocket-Protocol"));
    Ok(HandshakeInfo { key, extensions, protocols })
}

impl<'a> HandshakeInfo<'a> {
    /// The 101 Switching Protocols response that completes this handshake.
    pub fn make_response(&self) -> (r: Response)
        ensures
            response_status(r) == 101,
            response_headers(r) == response_headers_for(self@.key),
    {
        proof {
            reveal_strlit("Upgrade");
            reveal_strlit("websocket");
            reveal_strlit("Connection");
            reveal_strlit("Sec-WebSocket-Accept");
        }
        let mut res = switching_protocols();
        let accept = convert_key(self.key.as_bytes());
        proof {
            lemma_base64_ascii(sha1_digest(self.key.spec_bytes() + guid_bytes()));
        }
        insert_header(&mut res, "Upgrade", "websocket");
        insert_header(&mut res, "Connection", "Upgrade");
        insert_header(&mut res, "Sec-WebSocket-Accept", accept.as_str());
        proof {
            assert(response_headers(res) =~= response_headers_for(self@.key));
        }
        res
    }

    /// The client's `Sec-WebSocket-Key` value.
    pub fn key(&self) -> (r: &'a str)
        ensures
            r@ == self@.key,
    {
        self.key
    }

    /// The requested extensions without parameters, in order of appearance.
    pub fn extensions(&self) -> (r: &Vec<&'a str>)
        ensures
            views(r@) == self@.extensions,
    {
        &self.extensions
    }

    /// The requested subprotocols, in order of appearance.
    pub fn protocols(&self) -> (r: &Vec<&'a str>)
        ensures
            views(r@) == self@.protocols,
    {
        &self.protocols
    }
}

/// A request that lacks one of the mandatory headers is rejected; the
/// missing header is the one reported whenever the checks that come before
/// it in the fixed order pass.
pub proof fn lemma_missing_header_rejected(h: Map<Seq<char>, Seq<Seq<char>>>)
    ensures
        last_value(h, "Connection"@) is None || last_value(h, "Upgrade"@) is None || last_value(
            h,
            "Sec-WebSocket-Version"@,
        ) is None || last_value(h, "Sec-WebSocket-Key"@) is None ==> handshake_outcome(h) is Err,
        last_value(h, "Connection"@) is None ==> handshake_outcome(h) == Err::<
            HandshakeModel,
            ErrorModel,
        >(ErrorModel::MissingHeader("Connection"@)),
        header_check(h, "Connection"@, "Upgrade"@) is None && last_value(h, "Upgrade"@) is None
            ==> handshake_outcome(h) == Err::<HandshakeModel, ErrorModel>(
            ErrorModel::MissingHeader("Upgrade"@),
        ),
        header_check(h, "Connection"@, "Upgrade"@) is None && header_check(
            h,
            "Upgrade"@,
            "websocket"@,
        ) is None && last_value(h, "Sec-WebSocket-Version"@) is None ==> handshake_outcome(h)
            == Err::<HandshakeModel, ErrorModel>(ErrorModel::MissingHeader("Sec-WebSocket-Version"@)),
        header_check(h, "Connection"@, "Upgrade"@) is None && header_check(
            h,
            "Upgrade"@,
            "websocket"@,
        ) is None && header_check(h, "Sec-WebSocket-Version"@, "13"@) is None && last_value(
            h,
            "Sec-WebSocket-Key"@,
        ) is None ==> handshake_outcome(h) == Err::<HandshakeModel, ErrorModel>(
            ErrorModel::MissingHeader("Sec-WebSocket-Key"@),
        ),
{
}

/// A `Connection` header whose last value is not exactly `Upgrade` is
/// rejected as an invalid value of `Connection`, expected `Upgrade`, with
/// the value found.
pub proof fn lemma_connection_must_be_upgrade(h: Map<Seq<char>, Seq<Seq<char>>>, v: Seq<char>)
    requires
        last_value(h, "Connection"@) == Some(v),
        v != "Upgrade"@,
    ensures
        handshake_outcome(h) == Err::<HandshakeModel, ErrorModel>(
            ErrorModel::InvalidHeaderValue {
                header: "Connection"@,
                expected: Some("Upgrade"@),
                found: v,
            },
        ),
{
}

/// The checks run in a fixed order: with both `Connection` and `Upgrade`
/// missing, the missing `Connection` is reported.
pub proof fn lemma_connection_checked_first(h: Map<Seq<char>, Seq<Seq<char>>>)
    requires
        last_value(h, "Connection"@) is None,
        last_value(h, "Upgrade"@) is None,
    ensures
        handshake_outcome(h) == Err::<HandshakeModel, ErrorModel>(
            ErrorModel::MissingHeader("Connection"@),
        ),
{
}

/// With several `Sec-WebSocket-Key` values, the key of a valid handshake is
/// the last one received.
pub proof fn lemma_key_is_last_value(h: Map<Seq<char>, Seq<Seq<char>>>)
    requires
        handshake_outcome(h) is Ok,
    ensures
        h.contains_key(header_key("Sec-WebSocket-Key"@)),
        handshake_outcome(h)->Ok_0.key == h[header_key("Sec-WebSocket-Key"@)].last(),
{
}

/// Absent extension and protocol headers give empty lists, not errors.
pub proof fn lemma_absent_lists_are_empty(h: Map<Seq<char>, Seq<Seq<char>>>)
    requires
        handshake_outcome(h) is Ok,
    ensures
        !h.contains_key(header_key("Sec-WebSocket-Extensions"@)) ==> handshake_outcome(
            h,
        )->Ok_0.extensions == Seq::<Seq<char>>::empty(),
        !h.contains_key(header_key("Sec-WebSocket-Protocol"@)) ==> handshake_outcome(
            h,
        )->Ok_0.protocols == Seq::<Seq<char>>::empty(),
{
}

/// The response to a valid handshake carries exactly three headers:
/// `Upgrade: websocket`, `Connection: Upgrade`, and `Sec-WebSocket-Accept`
/// with the token derived from the validated key.
pub proof fn lemma_response_after_validation(h: Map<Seq<char>, Seq<Seq<char>>>)
    requires
        handshake_outcome(h) is Ok,
    ensures
        ({
            let key = handshake_outcome(h)->Ok_0.key;
            let r = response_headers_for(key);
            &&& r.dom().len() == 3
            &&& r[header_key("Upgrade"@)] == seq!["websocket"@]
            &&& r[header_key("Connection"@)] == seq!["Upgrade"@]
            &&& r[header_key("Sec-WebSocket-Accept"@)] == seq![accept_token(encode_utf8(key))]
            &&& key == h[header_key("Sec-WebSocket-Key"@)].last()
        }),
{
    reveal_strlit("Upgrade");
    reveal_strlit("Connection");
    reveal_strlit("Sec-WebSocket-Accept");
    let key = handshake_outcome(h)->Ok_0.key;
    let u = header_key("Upgrade"@);
    let c = header_key("Connection"@);
    let a = header_key("Sec-WebSocket-Accept"@);
    assert(u.len() != c.len() && u.len() != a.len() && c.len() != a.len());
    let m0 = Map::<Seq<char>, Seq<Seq<char>>>::empty();
    let m1 = m0.insert(u, seq!["websocket"@]);
    let m2 = m1.insert(c, seq!["Upgrade"@]);
    assert(m1.dom().len() == 1) by {
        assert(m1.dom() =~= set![u]);
    }
    assert(m2.dom().len() == 2) by {
        assert(!m1.dom().contains(c));
    }
    assert(!m2.dom().contains(a));
}

} // verus!
