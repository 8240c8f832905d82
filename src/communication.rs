//! The decisions of the duplex transport: what an inbound message is, what
//! the reader does with it, and how the reader and writer react to the
//! outcome of a read or write on the stream.

use crate::ids::{parse_id, uuid_parsed};
use crate::json::{first_value_end, json_first_value_end, json_found, json_quoted, lookup};
use vstd::slice::slice_subrange;
use crate::registry::{lookup_in, CallbackMap, RegistryEntry};
use crate::rpc::{RpcResponse, JSONRPC_VERSION};
use vstd::prelude::*;

verus! {

/// How many bytes the reader asks the stream for at a time.
pub const READ_BUFFER_SIZE: usize = 4096;

/// How long the reader or writer waits before trying again after the stream
/// reported that it would block, in milliseconds.
pub const RETRY_DELAY_MS: u64 = 100;

/// What an inbound message turned out to be.
#[derive(Debug, PartialEq, Eq)]
pub enum Inbound {
    /// A request that carries a state report for the control state `state`.
    Control { request_id: String, state: u128, data: String },
    /// Any other request.
    Request,
    /// A response to one of ours.
    Response,
    /// A JSON document that is neither.
    Unknown,
    /// Bytes that are not a JSON document.
    Malformed,
}

/// The pointers that decoding reads.
pub const ROOT: &'static str = "";
pub const METHOD: &'static str = "/method";
pub const RESULT: &'static str = "/result";
pub const REQUEST_ID: &'static str = "/id";
pub const STATE_DATA: &'static str = "/params/data/data";
pub const STATE_ID: &'static str = "/params/data/meta/id";

/// The string found at a pointer, if a string is there.
pub open spec fn found_text(f: Option<Option<Seq<char>>>) -> Option<Seq<char>> {
    match f {
        Some(Some(t)) => Some(t),
        _ => None,
    }
}

/// `r` is the message with these findings: whether the document parsed,
/// whether it has a `method` and a `result` member, and the texts at the
/// request id, the state data and the state id (with what that id parses to).
pub open spec fn classified(
    parsed: bool,
    has_method: bool,
    has_result: bool,
    id: Option<Seq<char>>,
    data: Option<Seq<char>>,
    state: Option<u128>,
    r: Inbound,
) -> bool {
    if !parsed {
        r is Malformed
    } else if has_method {
        if id is Some && data is Some && state is Some {
            r matches Inbound::Control { request_id, state: s, data: d } && request_id@ == id->0 && d@
                == data->0 && s == state->0
        } else {
            r is Request
        }
    } else if has_result {
        r is Response
    } else {
        r is Unknown
    }
}

/// `r` is what the bytes `b` decode to.
pub open spec fn decoded(b: Seq<u8>, r: Inbound) -> bool {
    let state_text = found_text(json_found(b, STATE_ID@));
    classified(
        json_found(b, ROOT@) is Some,
        json_found(b, METHOD@) is Some,
        json_found(b, RESULT@) is Some,
        found_text(json_found(b, REQUEST_ID@)),
        found_text(json_found(b, STATE_DATA@)),
        match state_text {
            Some(t) => uuid_parsed(t),
            None => None,
        },
        r,
    )
}

fn text_of(f: Option<Option<String>>) -> (r: Option<String>)
    ensures
        r is Some <==> f matches Some(Some(_)),
        r matches Some(t) ==> f == Some(Some(t)),
{
    match f {
        Some(Some(t)) => Some(t),
        _ => None,
    }
}

/// Sorts a message by what was found in it: a request when it has a
/// `method`, a control message when the request also carries an id, state
/// data and a state id; a response when it has a `result`.
pub fn classify(
    parsed: bool,
    has_method: bool,
    has_result: bool,
    id: Option<String>,
    data: Option<String>,
    state: Option<u128>,
) -> (r: Inbound)
    ensures
        classified(
            parsed,
            has_method,
            has_result,
            match id {
                Some(t) => Some(t@),
                None => None,
            },
            match data {
                Some(t) => Some(t@),
                None => None,
            },
            state,
            r,
        ),
{
    if !parsed {
        Inbound::Malformed
    } else if has_method {
        match (id, data, state) {
            (Some(request_id), Some(data), Some(state)) => Inbound::Control { request_id, state, data },
            _ => Inbound::Request,
        }
    } else if has_result {
        Inbound::Response
    } else {
        Inbound::Unknown
    }
}

/// Decodes one inbound message.
pub fn decode(b: &[u8]) -> (r: Inbound)
    ensures
        decoded(b@, r),
{
    let parsed = lookup(b, ROOT).is_some();
    let has_method = lookup(b, METHOD).is_some();
    let has_result = lookup(b, RESULT).is_some();
    let id = text_of(lookup(b, REQUEST_ID));
    let data = text_of(lookup(b, STATE_DATA));
    let state = match text_of(lookup(b, STATE_ID)) {
        Some(t) => parse_id(t.as_str()),
        None => None,
    };
    classify(parsed, has_method, has_result, id, data, state)
}

/// The JSON values that `b` holds one after the other, each with the white
/// space before it, as far as they can be read.
pub open spec fn frames_of(b: Seq<u8>) -> Seq<Seq<u8>>
    decreases b.len(),
{
    match json_first_value_end(b) {
        Some(e) => if 0 < e <= b.len() {
            seq![b.take(e)] + frames_of(b.skip(e))
        } else {
            Seq::empty()
        },
        None => Seq::empty(),
    }
}

/// Decodes every message that one read holds, in order. A read that starts
/// with no readable message is decoded as one (malformed) message; what
/// follows the last readable message is dropped.
pub fn decode_all(b: &[u8]) -> (r: Vec<Inbound>)
    ensures
        frames_of(b@).len() == 0 ==> r@.len() == 1 && decoded(b@, r@[0]),
        frames_of(b@).len() > 0 ==> r@.len() == frames_of(b@).len() && forall|i: int|
            0 <= i < r@.len() ==> decoded(frames_of(b@)[i], #[trigger] r@[i]),
{
    let mut r: Vec<Inbound> = Vec::new();
    let mut start: usize = 0;
    let ghost mut done: Seq<Seq<u8>> = Seq::empty();
    proof {
        assert(b@.skip(0) =~= b@);
    }
    while start < b.len()
        invariant_except_break
            start <= b@.len(),
            frames_of(b@) == done + frames_of(b@.skip(start as int)),
            r@.len() == done.len(),
            forall|i: int| 0 <= i < r@.len() ==> decoded(done[i], #[trigger] r@[i]),
        ensures
            start <= b@.len(),
            frames_of(b@) == done + frames_of(b@.skip(start as int)),
            r@.len() == done.len(),
            forall|i: int| 0 <= i < r@.len() ==> decoded(done[i], #[trigger] r@[i]),
            frames_of(b@.skip(start as int)).len() == 0,
        decreases b@.len() - start,
    {
        let rest = slice_subrange(b, start, b.len());
        assert(rest@ =~= b@.skip(start as int));
        match first_value_end(rest) {
            Some(e) => {
                let frame = slice_subrange(b, start, start + e);
                proof {
                    assert(frame@ =~= b@.skip(start as int).take(e as int));
                    assert(b@.skip(start as int).skip(e as int) =~= b@.skip(start + e));
                    done = done.push(frame@);
                    assert(frames_of(b@) =~= done + frames_of(b@.skip(start + e)));
                }
                r.push(decode(frame));
                start = start + e;
            },
            None => {
                proof {
                    assert(frames_of(b@.skip(start as int)).len() == 0);
                }
                break;
            },
        }
    }
    proof {
        assert(frames_of(b@) =~= done);
    }
    if r.len() == 0 {
        r.push(decode(b));
    }
    r
}

/// What the reader does about one inbound message: the acknowledgement to
/// queue (first), the value whose callback gets the data (then), and whether
/// the reader stops.
#[derive(Debug)]
pub struct ReaderStep {
    pub ack: Option<String>,
    pub dispatch: Option<(usize, usize, String)>,
    pub stop: bool,
}

/// The acknowledgement of the request `id`.
pub open spec fn ack_text(id: Seq<char>) -> Seq<char> {
    "{\"jsonrpc\":"@ + json_quoted(JSONRPC_VERSION@) + ",\"id\":"@ + json_quoted(id)
        + ",\"result\":{\"success\":"@ + "true"@ + "}}"@
}

/// `r` is what the reader does about `frame`, given the registry `reg`: a
/// control message is acknowledged under its request id, then handed to the
/// value the registry names for its state; a state the registry does not know
/// stops the reader. Anything else is passed over.
pub open spec fn reader_step(reg: Seq<RegistryEntry>, frame: Inbound, r: ReaderStep) -> bool {
    match frame {
        Inbound::Control { request_id, state, data } => {
            &&& r.ack matches Some(a) && a@ == ack_text(request_id@)
            &&& match lookup_in(reg, state) {
                Some((d, v)) => {
                    &&& r.dispatch matches Some((d2, v2, t)) && d2 == d && v2 == v && t@ == data@
                    &&& !r.stop
                },
                None => r.dispatch is None && r.stop,
            }
        },
        _ => r.ack is None && r.dispatch is None && !r.stop,
    }
}

/// What the reader does about one decoded inbound message.
pub fn handle_inbound(registry: &CallbackMap, frame: Inbound) -> (r: ReaderStep)
    ensures
        reader_step(registry@, frame, r),
{
    match frame {
        Inbound::Control { request_id, state, data } => {
            let ack = RpcResponse::new(request_id, true).to_text();
            match registry.lookup(state) {
                Some((d, v)) => ReaderStep { ack: Some(ack), dispatch: Some((d, v, data)), stop: false },
                None => ReaderStep { ack: Some(ack), dispatch: None, stop: true },
            }
        },
        _ => ReaderStep { ack: None, dispatch: None, stop: false },
    }
}

/// How a read or a write on the stream ended.
#[derive(Clone, Copy, Debug, PartialEq, Eq, Structural)]
pub enum IoOutcome {
    /// It moved this many bytes.
    Done(usize),
    /// The stream would have blocked.
    WouldBlock,
    /// Any other failure.
    Failed,
}

/// What a loop does next.
#[derive(Clone, Copy, Debug, PartialEq, Eq, Structural)]
pub enum LoopAction {
    /// Go on with this many bytes.
    Proceed(usize),
    /// Try the same operation again after this many milliseconds.
    RetryAfter(u64),
    /// End the loop.
    Stop,
}

/// The reader after a read: bytes go to the decoder; a read that would
/// block is tried again after the delay; an end of stream (no bytes) or a
/// failure ends the reader.
pub fn after_read(o: IoOutcome) -> (r: LoopAction)
    ensures
        r == match o {
            IoOutcome::Done(n) => if n > 0 { LoopAction::Proceed(n) } else { LoopAction::Stop },
            IoOutcome::WouldBlock => LoopAction::RetryAfter(RETRY_DELAY_MS),
            IoOutcome::Failed => LoopAction::Stop,
        },
{
    match o {
        IoOutcome::Done(n) => if n > 0 { LoopAction::Proceed(n) } else { LoopAction::Stop },
        IoOutcome::WouldBlock => LoopAction::RetryAfter(RETRY_DELAY_MS),
        IoOutcome::Failed => LoopAction::Stop,
    }
}

/// The writer after writing a whole message: it takes the next one; a write
/// that would block is tried again after the delay; a failure ends the
/// writer.
pub fn after_write(o: IoOutcome) -> (r: LoopAction)
    ensures
        r == match o {
            IoOutcome::Done(n) => LoopAction::Proceed(n),
            IoOutcome::WouldBlock => LoopAction::RetryAfter(RETRY_DELAY_MS),
            IoOutcome::Failed => LoopAction::Stop,
        },
{
    match o {
        IoOutcome::Done(n) => LoopAction::Proceed(n),
        IoOutcome::WouldBlock => LoopAction::RetryAfter(RETRY_DELAY_MS),
        IoOutcome::Failed => LoopAction::Stop,
    }
}

} // verus!
