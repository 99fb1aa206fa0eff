//! Frames: how worker events travel over the callback connection.
//!
//! A frame is a header of four bytes, which hold the length of the payload
//! as a big-endian number, and the payload, one worker event. A stream that
//! ends inside a frame has simply ended: what is there of the last frame is
//! left alone. A payload that holds no event is dropped, and the frames
//! after it are read as if it had not been there.

use crate::events::{
    decoded, encoded_event, event_fits, lemma_event_reads_back, Report, WorkerEvent,
};
use crate::registry::{after_event, Registry, WorkerState};
use vstd::prelude::*;
use vstd::slice::slice_subrange;

verus! {

/// The number of bytes of a frame header.
pub const HEADER_LEN: usize = 4;

/// The number that the first four bytes of `header` hold, highest byte
/// first.
pub open spec fn big_endian(header: Seq<u8>) -> nat
    recommends
        header.len() >= 4,
{
    (header[0] as nat) * 0x100_0000 + (header[1] as nat) * 0x1_0000 + (header[2] as nat) * 0x100
        + (header[3] as nat)
}

/// The header for a payload of `length` bytes.
pub open spec fn header_for(length: nat) -> Seq<u8>
    recommends
        length <= u32::MAX,
{
    seq![
        (length / 0x100_0000) as u8,
        (length / 0x1_0000 % 0x100) as u8,
        (length / 0x100 % 0x100) as u8,
        (length % 0x100) as u8,
    ]
}

/// The frame that carries `payload`.
pub open spec fn framed(payload: Seq<u8>) -> Seq<u8>
    recommends
        payload.len() <= u32::MAX,
{
    header_for(payload.len()) + payload
}

/// Whether `stream` begins with a whole frame.
pub open spec fn frame_ready(stream: Seq<u8>) -> bool {
    stream.len() >= 4 && stream.len() >= 4 + big_endian(stream)
}

/// The payload of the frame that `stream` begins with.
pub open spec fn first_payload(stream: Seq<u8>) -> Seq<u8>
    recommends
        frame_ready(stream),
{
    stream.subrange(4, 4 + big_endian(stream) as int)
}

/// What follows the frame that `stream` begins with.
pub open spec fn after_first(stream: Seq<u8>) -> Seq<u8>
    recommends
        frame_ready(stream),
{
    stream.skip(4 + big_endian(stream) as int)
}

/// What is left of `stream` after its whole frames: the beginning of a
/// frame that has not come in full, or nothing.
pub open spec fn remainder(stream: Seq<u8>) -> Seq<u8>
    decreases stream.len(),
{
    if frame_ready(stream) {
        remainder(after_first(stream))
    } else {
        stream
    }
}

/// The registry after the payload of one frame: the event it holds is taken
/// in; a payload that holds no event changes nothing.
pub open spec fn after_payload(sessions: Map<Seq<char>, WorkerState>, payload: Seq<u8>) -> Map<
    Seq<char>,
    WorkerState,
> {
    match decoded(payload) {
        Some(event) => after_event(sessions, event),
        None => sessions,
    }
}

/// The registry after the whole frames of `stream`, taken in one after the
/// other.
pub open spec fn after_stream(sessions: Map<Seq<char>, WorkerState>, stream: Seq<u8>) -> Map<
    Seq<char>,
    WorkerState,
>
    decreases stream.len(),
{
    if frame_ready(stream) {
        after_stream(after_payload(sessions, first_payload(stream)), after_first(stream))
    } else {
        sessions
    }
}

/// Reads the length of the payload from a frame header.
pub fn frame_length(header: [u8; 4]) -> (length: usize)
    ensures
        length == big_endian(header@),
        length <= u32::MAX,
{
    let length: u32 = (header[0] as u32) * 0x100_0000 + (header[1] as u32) * 0x1_0000 + (
    header[2] as u32) * 0x100 + (header[3] as u32);
    length as usize
}

/// Takes the payload of one frame into the registry and tells whether it
/// held an event. A payload that holds none is dropped.
pub fn apply_payload(registry: &mut Registry, payload: &[u8]) -> (held: bool)
    ensures
        held == decoded(payload@) is Some,
        final(registry)@ == after_payload(old(registry)@, payload@),
{
    match WorkerEvent::decode(payload) {
        Some(event) => {
            registry.handle_event(event);
            true
        },
        None => false,
    }
}

/// Takes the whole frames at the start of `stream` into the registry, one
/// after the other, and tells how many bytes they took. What follows them is
/// the beginning of a frame that has not come in full.
pub fn process_stream(registry: &mut Registry, stream: &[u8]) -> (taken: usize)
    ensures
        taken <= stream.len(),
        stream@.skip(taken as int) == remainder(stream@),
        final(registry)@ == after_stream(old(registry)@, stream@),
{
    let mut at: usize = 0;
    assert(stream@.skip(0) =~= stream@);
    loop
        invariant
            at <= stream.len(),
            remainder(stream@) == remainder(stream@.skip(at as int)),
            after_stream(old(registry)@, stream@) == after_stream(registry@, stream@.skip(at as int)),
        ensures
            at <= stream.len(),
            stream@.skip(at as int) == remainder(stream@),
            registry@ == after_stream(old(registry)@, stream@),
        decreases stream.len() - at,
    {
        let ghost here = stream@.skip(at as int);
        if stream.len() - at < HEADER_LEN {
            break;
        }
        let header = [stream[at], stream[at + 1], stream[at + 2], stream[at + 3]];
        let length = frame_length(header);
        assert(big_endian(header@) == big_endian(here));
        if stream.len() - at - HEADER_LEN < length {
            break;
        }
        let start = at + HEADER_LEN;
        let end = start + length;
        let payload = slice_subrange(stream, start, end);
        assert(payload@ =~= first_payload(here));
        assert(stream@.skip(end as int) =~= after_first(here));
        apply_payload(registry, payload);
        at = end;
    }
    at
}

/// The reader of one callback connection: it gathers what comes in and
/// takes whole frames into the registry as soon as they are there.
pub struct FrameReader {
    pending: Vec<u8>,
}

impl View for FrameReader {
    type V = Seq<u8>;

    /// The bytes that have come in and belong to no whole frame yet.
    closed spec fn view(&self) -> Seq<u8> {
        self.pending@
    }
}

impl FrameReader {
    /// A reader to which nothing has come in.
    pub fn new() -> (reader: FrameReader)
        ensures
            reader@ == Seq::<u8>::empty(),
    {
        FrameReader { pending: Vec::new() }
    }

    /// The number of bytes that have come in and belong to no whole frame
    /// yet.
    pub fn pending_len(&self) -> (count: usize)
        ensures
            count == self@.len(),
    {
        self.pending.len()
    }

    /// Takes in the next bytes of the connection: the whole frames that are
    /// there with them go into the registry, and the rest waits for more.
    pub fn feed(&mut self, chunk: &[u8], registry: &mut Registry)
        ensures
            final(self)@ == remainder(old(self)@ + chunk@),
            final(registry)@ == after_stream(old(registry)@, old(self)@ + chunk@),
    {
        let mut stream: Vec<u8> = Vec::new();
        core::mem::swap(&mut stream, &mut self.pending);
        assert(stream@ == old(self)@);
        assert(self.pending@ =~= Seq::<u8>::empty());
        stream.extend_from_slice(chunk);
        assert(stream@ =~= old(self)@ + chunk@);
        let taken = process_stream(registry, stream.as_slice());
        let rest = slice_subrange(stream.as_slice(), taken, stream.len());
        assert(rest@ =~= stream@.skip(taken as int));
        self.pending.extend_from_slice(rest);
        assert(self.pending@ =~= rest@);
    }
}

/// The header for a length holds that length.
pub proof fn lemma_header_round_trip(length: nat)
    requires
        length <= u32::MAX,
    ensures
        header_for(length).len() == 4,
        big_endian(header_for(length)) == length,
{
}

/// A stream that begins with the frame of a payload begins with a whole
/// frame: that payload is its first, and what follows the frame comes after.
pub proof fn lemma_framed_first(payload: Seq<u8>, rest: Seq<u8>)
    requires
        payload.len() <= u32::MAX,
    ensures
        frame_ready(framed(payload) + rest),
        first_payload(framed(payload) + rest) == payload,
        after_first(framed(payload) + rest) == rest,
{
    lemma_header_round_trip(payload.len());
    let stream = framed(payload) + rest;
    assert(big_endian(stream) == big_endian(header_for(payload.len())));
    assert(first_payload(stream) =~= payload);
    assert(after_first(stream) =~= rest);
}

/// A frame whose payload holds no event is dropped: the registry ends as if
/// the frame had not been in the stream, and the frames after it are taken
/// in as they are.
pub proof fn lemma_bad_frame_is_dropped(
    sessions: Map<Seq<char>, WorkerState>,
    payload: Seq<u8>,
    rest: Seq<u8>,
)
    requires
        payload.len() <= u32::MAX,
        decoded(payload) is None,
    ensures
        after_stream(sessions, framed(payload) + rest) == after_stream(sessions, rest),
        remainder(framed(payload) + rest) == remainder(rest),
{
    lemma_framed_first(payload, rest);
}

/// A frame whose payload holds an event has that event taken in before the
/// frames that follow it.
pub proof fn lemma_good_frame_is_applied(
    sessions: Map<Seq<char>, WorkerState>,
    payload: Seq<u8>,
    rest: Seq<u8>,
)
    requires
        payload.len() <= u32::MAX,
        decoded(payload) is Some,
    ensures
        after_stream(sessions, framed(payload) + rest) == after_stream(
            after_event(sessions, decoded(payload)->0),
            rest,
        ),
{
    lemma_framed_first(payload, rest);
}

/// A frame that carries an event has that event taken in as it was sent,
/// before the frames that follow it.
pub proof fn lemma_sent_event_arrives(
    sessions: Map<Seq<char>, WorkerState>,
    event: Option<Report>,
    rest: Seq<u8>,
)
    requires
        event_fits(event),
        encoded_event(event).len() <= u32::MAX,
    ensures
        after_stream(sessions, framed(encoded_event(event)) + rest) == after_stream(
            after_event(sessions, event),
            rest,
        ),
{
    lemma_event_reads_back(event);
    lemma_good_frame_is_applied(sessions, encoded_event(event), rest);
}

/// The reader recovers: after a frame whose payload holds no event, the
/// next frame that carries an event is read as it was sent.
pub proof fn lemma_reader_recovers(
    sessions: Map<Seq<char>, WorkerState>,
    corrupt: Seq<u8>,
    event: Option<Report>,
    rest: Seq<u8>,
)
    requires
        corrupt.len() <= u32::MAX,
        decoded(corrupt) is None,
        event_fits(event),
        encoded_event(event).len() <= u32::MAX,
    ensures
        after_stream(sessions, framed(corrupt) + (framed(encoded_event(event)) + rest))
            == after_stream(after_event(sessions, event), rest),
{
    lemma_bad_frame_is_dropped(sessions, corrupt, framed(encoded_event(event)) + rest);
    lemma_sent_event_arrives(sessions, event, rest);
}

/// A stream that ends before its first frame is whole changes nothing and is
/// kept as it is.
pub proof fn lemma_truncated_frame_waits(sessions: Map<Seq<char>, WorkerState>, stream: Seq<u8>)
    requires
        !frame_ready(stream),
    ensures
        after_stream(sessions, stream) == sessions,
        remainder(stream) == stream,
{
}

/// What is left of a stream begins with no whole frame.
pub proof fn lemma_remainder_is_partial(stream: Seq<u8>)
    ensures
        !frame_ready(remainder(stream)),
        remainder(stream).len() <= stream.len(),
    decreases stream.len(),
{
    if frame_ready(stream) {
        lemma_remainder_is_partial(after_first(stream));
    }
}

/// However a stream is cut in two, the registry ends the same: taking in the
/// first part, and then what was left of it together with the second part,
/// is taking in the whole.
pub proof fn lemma_stream_in_pieces(
    sessions: Map<Seq<char>, WorkerState>,
    first: Seq<u8>,
    second: Seq<u8>,
)
    ensures
        after_stream(sessions, first + second) == after_stream(
            after_stream(sessions, first),
            remainder(first) + second,
        ),
        remainder(first + second) == remainder(remainder(first) + second),
    decreases first.len(),
{
    if frame_ready(first) {
        let whole = first + second;
        assert(big_endian(whole) == big_endian(first));
        assert(frame_ready(whole));
        assert(first_payload(whole) =~= first_payload(first));
        assert(after_first(whole) =~= after_first(first) + second);
        lemma_stream_in_pieces(
            after_payload(sessions, first_payload(first)),
            after_first(first),
            second,
        );
    }
}

} // verus!
