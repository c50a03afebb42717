//! Session descriptions: the offer/answer payloads exchanged during signaling.
//!
//! The core never interprets the SDP text itself; it round-trips it as bytes
//! and discriminates only on the `type` tag.
use vstd::prelude::*;

verus! {

/// The closed set of session description kinds the signaling layer accepts.
#[derive(Clone, Copy, PartialEq, Eq, Structural, Debug)]
pub enum SdpKind {
    Offer,
    Answer,
}

/// An offer or answer: a kind tag plus the SDP body, kept as raw bytes.
pub struct SessionDescription {
    pub kind: SdpKind,
    pub sdp: Vec<u8>,
}

/// The mathematical value of a `SessionDescription`.
#[verifier::ext_equal]
pub struct DescView {
    pub kind: SdpKind,
    pub sdp: Seq<u8>,
}

impl View for SessionDescription {
    type V = DescView;

    open spec fn view(&self) -> DescView {
        DescView { kind: self.kind, sdp: self.sdp@ }
    }
}

impl Clone for SessionDescription {
    fn clone(&self) -> (r: Self)
        ensures
            r@ == self@,
    {
        let sdp_copy = clone_bytes(&self.sdp);
        SessionDescription { kind: self.kind, sdp: sdp_copy }
    }
}

/// Copies a byte vector element by element.
pub fn clone_bytes(v: &Vec<u8>) -> (r: Vec<u8>)
    ensures
        r@ == v@,
{
    let mut out: Vec<u8> = Vec::new();
    let mut i: usize = 0;
    while i < v.len()
        invariant
            i <= v.len(),
            out@ == v@.take(i as int),
        decreases v.len() - i,
    {
        out.push(v[i]);
        i = i + 1;
        proof {
            assert(out@ =~= v@.take(i as int));
        }
    }
    proof {
        assert(v@.take(v@.len() as int) =~= v@);
    }
    out
}

/// Compares two byte vectors for equality of contents.
pub fn bytes_eq(a: &Vec<u8>, b: &Vec<u8>) -> (r: bool)
    ensures
        r == (a@ == b@),
{
    if a.len() != b.len() {
        proof {
            assert(a@.len() != b@.len());
        }
        return false;
    }
    let mut i: usize = 0;
    while i < a.len()
        invariant
            i <= a.len(),
            a@.len() == b@.len(),
            forall|k: int| 0 <= k < i ==> a@[k] == b@[k],
        decreases a.len() - i,
    {
        if a[i] != b[i] {
            return false;
        }
        i = i + 1;
    }
    proof {
        assert(a@ =~= b@);
    }
    true
}

} // verus!
