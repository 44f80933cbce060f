use vstd::prelude::*;

verus! {

/// The sub-protocol identifier that a client must offer.
pub open spec fn spec_protocol() -> Seq<char> {
    "vdom-websocket-rsjs"@
}

pub fn protocol_name() -> (r: String)
    ensures
        r@ == spec_protocol(),
{
    String::from_str("vdom-websocket-rsjs")
}

/// Whether `wanted` is one of the identifiers offered, matched exactly.
pub fn offers(offered: &Vec<String>, wanted: &String) -> (r: bool)
    ensures
        r == exists|i: int| 0 <= i < offered@.len() && #[trigger] offered@[i]@ == wanted@,
{
    let mut i: usize = 0;
    while i < offered.len()
        invariant
            0 <= i <= offered@.len(),
            forall|j: int| 0 <= j < i ==> #[trigger] offered@[j]@ != wanted@,
        decreases offered@.len() - i,
    {
        if offered[i] == *wanted {
            return true;
        }
        i = i + 1;
    }
    false
}

/// How the listener answers a connection request.
#[derive(PartialEq, Eq, Structural, Clone, Copy, Debug)]
pub enum Handshake {
    Accept,
    Reject,
}

/// A request is accepted exactly when it offers the supported sub-protocol.
pub fn handshake(offered: &Vec<String>) -> (r: Handshake)
    ensures
        (r == Handshake::Accept) == exists|i: int|
            0 <= i < offered@.len() && #[trigger] offered@[i]@ == spec_protocol(),
{
    let p = protocol_name();
    if offers(offered, &p) {
        Handshake::Accept
    } else {
        Handshake::Reject
    }
}

} // verus!
