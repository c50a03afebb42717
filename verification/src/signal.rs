//! The HTTP-facing signaling surface: routing, payload intake, the
//! single-slot offer/answer handoff, and response construction.
//!
//! The HTTP transport itself lives outside the library; these functions
//! decide everything the transport does not: where a request goes, whether a
//! posted body is a well-formed offer, and what response each outcome earns.
use vstd::prelude::*;

use crate::codec::{b64_decode, b64_decode_of, b64_encode, b64_of};
use crate::json::{json_of, parse_desc, parse_description, serialize_description};
use crate::session::{DescView, SessionDescription};
use vstd::string::StrSliceExecFns;
use vstd::utf8::encode_utf8;

verus! {

/// The port the signaling server listens on.
pub const SIGNALING_PORT: u16 = 8080;

/// The HTTP methods the server distinguishes.
#[derive(Clone, Copy, PartialEq, Eq, Structural, Debug)]
pub enum HttpMethod {
    Get,
    Post,
    Other,
}

/// Where a request goes.
#[derive(Clone, Copy, PartialEq, Eq, Structural, Debug)]
pub enum Route {
    Page,
    Signal,
    NotFound,
}

/// `/`
pub open spec fn root_path() -> Seq<u8> {
    seq![0x2fu8]
}

/// `/local`
pub open spec fn local_path() -> Seq<u8> {
    seq![0x2fu8, 0x6c, 0x6f, 0x63, 0x61, 0x6c]
}

/// The routing rule: `GET /` serves the page, `POST /local` signals,
/// everything else is not found.
pub open spec fn route_of(m: HttpMethod, path: Seq<u8>) -> Route {
    if m == HttpMethod::Get && path == root_path() {
        Route::Page
    } else if m == HttpMethod::Post && path == local_path() {
        Route::Signal
    } else {
        Route::NotFound
    }
}

/// Routes a request by method and path.
pub fn route(m: HttpMethod, path: &Vec<u8>) -> (r: Route)
    ensures
        r == route_of(m, path@),
{
    let is_root = path.len() == 1 && path[0] == 0x2f;
    let is_local = path.len() == 6 && path[0] == 0x2f && path[1] == 0x6c && path[2] == 0x6f
        && path[3] == 0x63 && path[4] == 0x61 && path[5] == 0x6c;
    proof {
        if is_root {
            assert(path@ =~= root_path());
        }
        if is_local {
            assert(path@ =~= local_path());
        }
    }
    match m {
        HttpMethod::Get => if is_root {
            Route::Page
        } else {
            Route::NotFound
        },
        HttpMethod::Post => if is_local {
            Route::Signal
        } else {
            Route::NotFound
        },
        HttpMethod::Other => Route::NotFound,
    }
}

/// A response as the library models it: a status code and a body.
pub struct HttpResponse {
    pub status: u16,
    pub body: Vec<u8>,
}

/// The static page served at `/`.
pub open spec fn page_text() -> Seq<char> {
    "<!DOCTYPE html><html><body><video id=\"remote\" autoplay controls></video></body></html>"@
}

/// The page body as bytes.
pub open spec fn page_bytes() -> Seq<u8> {
    encode_utf8(page_text())
}

/// Serves the static page: always 200 with a non-empty body.
pub fn respond_page() -> (r: HttpResponse)
    ensures
        r.status == 200,
        r.body@ == page_bytes(),
        r.body@.len() > 0,
{
    let text =
        "<!DOCTYPE html><html><body><video id=\"remote\" autoplay controls></video></body></html>";
    let body = text.as_bytes_vec();
    proof {
        reveal_strlit(
            "<!DOCTYPE html><html><body><video id=\"remote\" autoplay controls></video></body></html>",
        );
        assert(text.is_ascii());
        vstd::utf8::is_ascii_chars_encode_utf8(text@);
    }
    HttpResponse { status: 200, body }
}

/// The not-found response.
pub fn respond_not_found() -> (r: HttpResponse)
    ensures
        r.status == 404,
        r.body@.len() == 0,
{
    HttpResponse { status: 404, body: Vec::new() }
}

/// The internal-error response: every signaling failure surfaces as this,
/// never as a crash.
pub fn respond_server_error() -> (r: HttpResponse)
    ensures
        r.status == 500,
        r.body@.len() == 0,
{
    HttpResponse { status: 500, body: Vec::new() }
}

/// Wraps an encoded answer as the success response.
pub fn respond_answer(encoded: Vec<u8>) -> (r: HttpResponse)
    ensures
        r.status == 200,
        r.body@ == encoded@,
{
    HttpResponse { status: 200, body: encoded }
}

/// What a posted signaling body means, if anything: base64-decode it, then
/// parse the decoded bytes against the schema.
pub open spec fn offer_of_body(body: Seq<u8>) -> Option<DescView> {
    match b64_decode_of(body) {
        None => None,
        Some(j) => parse_desc(j),
    }
}

/// Why a posted body was rejected.
#[derive(Clone, Copy, PartialEq, Eq, Structural, Debug)]
pub enum SignalError {
    /// Not base64.
    DecodeError,
    /// Base64, but not a well-formed description object.
    ParseError,
    /// The orchestrator's side of the handoff is gone.
    ChannelClosed,
}

/// Decodes and parses a `POST /local` body into a session description.
pub fn accept_offer_body(body: &Vec<u8>) -> (r: Result<SessionDescription, SignalError>)
    ensures
        r matches Ok(d) ==> offer_of_body(body@) == Some(d@),
        r is Err ==> offer_of_body(body@) is None,
        r == Err::<SessionDescription, SignalError>(SignalError::DecodeError) <==> b64_decode_of(
            body@,
        ) is None,
        r == Err::<SessionDescription, SignalError>(SignalError::ParseError) <==> (b64_decode_of(
            body@,
        ) matches Some(j) && parse_desc(j) is None),
        forall|d: DescView| body@ == b64_of(json_of(d)) ==> (r matches Ok(x) && x@ == d),
{
    match b64_decode(body) {
        None => Err(SignalError::DecodeError),
        Some(decoded) => {
            let parsed = parse_description(&decoded);
            proof {
                assert forall|d: DescView| body@ == b64_of(json_of(d)) implies parse_desc(
                    decoded@,
                ) == Some(d) by {
                    crate::json::lemma_roundtrip(d);
                }
            }
            match parsed {
                None => Err(SignalError::ParseError),
                Some(d) => Ok(d),
            }
        },
    }
}

/// Serializes and frames an answer for the HTTP response body.
pub fn encode_answer(d: &SessionDescription) -> (r: Vec<u8>)
    ensures
        r@ == b64_of(json_of(d@)),
{
    let j = serialize_description(d);
    b64_encode(&j)
}

/// The two single-slot rendezvous points of the handshake: the pending offer
/// (HTTP side to orchestrator) and the pending answer (orchestrator to HTTP
/// side). At most one item is in flight per slot, and a slot is consumed
/// exactly once.
pub struct SignalingExchange {
    pub offer: Option<SessionDescription>,
    pub answer: Option<Vec<u8>>,
}

impl SignalingExchange {
    /// Both slots start empty.
    pub fn new() -> (r: Self)
        ensures
            r.offer is None,
            r.answer is None,
    {
        SignalingExchange { offer: None, answer: None }
    }

    /// Stages an offer if the slot is free; otherwise hands it back
    /// untouched. A refused offer changes nothing: two concurrent posts
    /// serialize rather than interleave.
    pub fn try_put_offer(&mut self, d: SessionDescription) -> (r: Option<SessionDescription>)
        ensures
            old(self).offer is None ==> r is None && (final(self).offer matches Some(x) && x@
                == d@) && final(self).answer == old(self).answer,
            old(self).offer is Some ==> (r matches Some(back) && back@ == d@) && *final(self)
                == *old(self),
    {
        match &self.offer {
            None => {
                self.offer = Some(d);
                None
            },
            Some(_) => Some(d),
        }
    }

    /// Consumes the pending offer, leaving the slot empty.
    pub fn take_offer(&mut self) -> (r: Option<SessionDescription>)
        ensures
            r == old(self).offer,
            final(self).offer is None,
            final(self).answer == old(self).answer,
    {
        let mut taken: Option<SessionDescription> = None;
        core::mem::swap(&mut self.offer, &mut taken);
        taken
    }

    /// Stages the encoded answer if the slot is free; otherwise hands it
    /// back untouched.
    pub fn try_put_answer(&mut self, a: Vec<u8>) -> (r: Option<Vec<u8>>)
        ensures
            old(self).answer is None ==> r is None && (final(self).answer matches Some(x) && x@
                == a@) && final(self).offer == old(self).offer,
            old(self).answer is Some ==> (r matches Some(back) && back@ == a@) && *final(self)
                == *old(self),
    {
        match &self.answer {
            None => {
                self.answer = Some(a);
                None
            },
            Some(_) => Some(a),
        }
    }

    /// Consumes the pending answer, leaving the slot empty.
    pub fn take_answer(&mut self) -> (r: Option<Vec<u8>>)
        ensures
            r == old(self).answer,
            final(self).answer is None,
            final(self).offer == old(self).offer,
    {
        let mut taken: Option<Vec<u8>> = None;
        core::mem::swap(&mut self.answer, &mut taken);
        taken
    }
}

/// What staging a posted body yields: staged, the slot was busy, or the body
/// was invalid and has already earned its error response.
pub enum OfferIntake {
    /// The offer now occupies the slot.
    Staged,
    /// A previous handshake is still pending; the parsed offer is handed
    /// back so the caller can wait and retry without re-parsing.
    SlotBusy(SessionDescription),
    /// The body was rejected; respond with the enclosed error.
    Invalid(HttpResponse),
}

/// Handles a signaling POST body up to the handoff: parse it, then stage the
/// offer. Never panics; a malformed body earns a 500 response and leaves the
/// exchange untouched.
pub fn begin_offer(ex: &mut SignalingExchange, body: &Vec<u8>) -> (r: OfferIntake)
    ensures
        offer_of_body(body@) is None ==> (r matches OfferIntake::Invalid(resp) && resp.status
            == 500) && *final(ex) == *old(ex),
        offer_of_body(body@) matches Some(d) ==> {
            &&& old(ex).offer is None ==> r is Staged && (final(ex).offer matches Some(x) && x@
                == d) && final(ex).answer == old(ex).answer
            &&& old(ex).offer is Some ==> (r matches OfferIntake::SlotBusy(b) && b@ == d)
                && *final(ex) == *old(ex)
        },
{
    match accept_offer_body(body) {
        Err(_) => OfferIntake::Invalid(respond_server_error()),
        Ok(d) => match ex.try_put_offer(d) {
            None => OfferIntake::Staged,
            Some(back) => OfferIntake::SlotBusy(back),
        },
    }
}

} // verus!
