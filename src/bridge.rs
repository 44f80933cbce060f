use vstd::prelude::*;

verus! {

/// A message read from the transport.
pub enum Incoming {
    Text(String),
    Binary(Vec<u8>),
    Ping(Vec<u8>),
    Pong(Vec<u8>),
    Close,
}

/// What the inbound loop does with a message.
#[derive(PartialEq, Eq, Structural, Clone, Copy, Debug)]
pub enum InboundStep {
    /// Decode the text as an action and forward it; drop it if it does not decode.
    Decode,
    /// Drop the message and read the next one.
    Skip,
    /// End the inbound loop cleanly.
    Stop,
}

pub open spec fn inbound_step_of(m: Incoming) -> InboundStep {
    match m {
        Incoming::Text(_) => InboundStep::Decode,
        Incoming::Close => InboundStep::Stop,
        _ => InboundStep::Skip,
    }
}

/// Text is decoded, a close ends the loop, and pings, pongs and binary
/// messages are dropped.
pub fn inbound_step(m: &Incoming) -> (r: InboundStep)
    ensures
        r == inbound_step_of(*m),
{
    match m {
        Incoming::Text(_) => InboundStep::Decode,
        Incoming::Close => InboundStep::Stop,
        Incoming::Binary(_) => InboundStep::Skip,
        Incoming::Ping(_) => InboundStep::Skip,
        Incoming::Pong(_) => InboundStep::Skip,
    }
}

/// The actions that the inbound loop forwards, given what each message
/// decoded to: decoded text up to the first close, in order.
pub open spec fn forwarded<A>(messages: Seq<Incoming>, decoded: Seq<Option<A>>) -> Seq<A>
    decreases messages.len(),
{
    if messages.len() == 0 {
        Seq::empty()
    } else {
        match inbound_step_of(messages[0]) {
            InboundStep::Stop => Seq::empty(),
            InboundStep::Skip => forwarded(messages.drop_first(), decoded.drop_first()),
            InboundStep::Decode => match decoded[0] {
                Some(a) => seq![a] + forwarded(messages.drop_first(), decoded.drop_first()),
                None => forwarded(messages.drop_first(), decoded.drop_first()),
            },
        }
    }
}

/// Runs the inbound loop over a sequence of messages, where `decoded[i]` is
/// what the text of message `i` decoded to (`None` where it did not decode).
pub fn forward_actions<A>(messages: &Vec<Incoming>, decoded: Vec<Option<A>>) -> (r: Vec<A>)
    requires
        decoded@.len() == messages@.len(),
    ensures
        r@ == forwarded(messages@, decoded@),
{
    let mut rest = decoded;
    let mut r: Vec<A> = Vec::new();
    let mut i: usize = 0;
    assert(messages@.skip(0) =~= messages@);
    assert(decoded@.skip(0) =~= decoded@);
    assert(r@ + forwarded(messages@, decoded@) =~= forwarded(messages@, decoded@));
    while i < messages.len()
        invariant
            0 <= i <= messages@.len(),
            decoded@.len() == messages@.len(),
            rest@ == decoded@.skip(i as int),
            r@ + forwarded(messages@.skip(i as int), rest@) == forwarded(messages@, decoded@),
        decreases messages@.len() - i,
    {
        let ghost ms = messages@.skip(i as int);
        let ghost ds = rest@;
        assert(ms.drop_first() =~= messages@.skip(i as int + 1));
        let d = rest.remove(0);
        assert(rest@ =~= ds.drop_first());
        assert(rest@ =~= decoded@.skip(i as int + 1));
        match inbound_step(&messages[i]) {
            InboundStep::Stop => {
                assert(r@ + Seq::<A>::empty() =~= r@);
                return r;
            },
            InboundStep::Skip => {},
            InboundStep::Decode => {
                match d {
                    Some(a) => {
                        let ghost before = r@;
                        r.push(a);
                        assert(before + (seq![a] + forwarded(ms.drop_first(), ds.drop_first())) =~= r@
                            + forwarded(ms.drop_first(), ds.drop_first()));
                    },
                    None => {},
                }
            },
        }
        i = i + 1;
    }
    assert(r@ + forwarded(messages@.skip(i as int), rest@) =~= r@);
    r
}

/// A message written to the transport.
pub enum Outgoing {
    Text(String),
    Close,
}

/// The envelope that carries a rendered tree to the client.
pub open spec fn envelope(tree: Seq<char>) -> Seq<char> {
    "{\"tree\":"@ + tree + "}"@
}

/// Wraps the JSON text of a rendered tree as `{"tree":<tree>}`.
pub fn snapshot_message(tree_json: &str) -> (r: String)
    ensures
        r@ == envelope(tree_json@),
{
    let mut r = String::from_str("{\"tree\":");
    r.append(tree_json);
    r.append("}");
    r
}

/// The messages that the outbound loop writes for a stream of rendered trees:
/// one text message per tree, in order, then one close message.
pub fn outbound_messages(trees: &Vec<String>) -> (r: Vec<Outgoing>)
    ensures
        r@.len() == trees@.len() + 1,
        forall|i: int|
            0 <= i < trees@.len() ==> match #[trigger] r@[i] {
                Outgoing::Text(t) => t@ == envelope(trees@[i]@),
                Outgoing::Close => false,
            },
        r@.last() is Close,
{
    let mut r: Vec<Outgoing> = Vec::new();
    let mut i: usize = 0;
    while i < trees.len()
        invariant
            0 <= i <= trees@.len(),
            r@.len() == i,
            forall|j: int|
                0 <= j < i ==> match #[trigger] r@[j] {
                    Outgoing::Text(t) => t@ == envelope(trees@[j]@),
                    Outgoing::Close => false,
                },
        decreases trees@.len() - i,
    {
        r.push(Outgoing::Text(snapshot_message(trees[i].as_str())));
        i = i + 1;
    }
    r.push(Outgoing::Close);
    r
}

} // verus!
