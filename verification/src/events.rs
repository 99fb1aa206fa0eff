//! The events a worker reports to its supervisor.

use crate::wire::{
    delimited, delimited_bytes, field_key, key_bytes, lemma_delimited_reads_back,
    lemma_field_key_count, lemma_key_reads_back, lemma_text_reads_back, lemma_varint_count,
    read_key, read_text, read_varint, skip_value, skipped_field, text_bytes, text_field,
    WIRE_LENGTH_DELIMITED,
};
use vstd::prelude::*;
use vstd::slice::slice_subrange;
use vstd::utf8::encode_utf8;

verus! {

/// A worker's report of its connection: the session it belongs to, its
/// status, and a credential for pairing, as a QR payload or a pairing code.
/// An empty field means that the worker did not report it.
#[derive(Clone, Debug, PartialEq, Eq)]
pub struct ConnectionEvent {
    pub phone: String,
    pub status: String,
    pub qr: String,
    pub pairing_code: String,
}

/// What a worker event holds.
#[derive(Clone, Debug, PartialEq, Eq)]
pub enum Event {
    Connection(ConnectionEvent),
    RawLog(String),
}

/// One message of the worker, as carried in a frame. A message may hold no
/// event at all.
#[derive(Clone, Debug, PartialEq, Eq)]
pub struct WorkerEvent {
    pub event: Option<Event>,
}

/// The content of a `ConnectionEvent`.
pub ghost struct ConnectionReport {
    pub phone: Seq<char>,
    pub status: Seq<char>,
    pub qr: Seq<char>,
    pub pairing_code: Seq<char>,
}

/// The content of an `Event`.
pub ghost enum Report {
    Connection(ConnectionReport),
    RawLog(Seq<char>),
}

impl View for ConnectionEvent {
    type V = ConnectionReport;

    open spec fn view(&self) -> ConnectionReport {
        ConnectionReport {
            phone: self.phone@,
            status: self.status@,
            qr: self.qr@,
            pairing_code: self.pairing_code@,
        }
    }
}

impl View for Event {
    type V = Report;

    open spec fn view(&self) -> Report {
        match self {
            Event::Connection(connection) => Report::Connection(connection@),
            Event::RawLog(line) => Report::RawLog(line@),
        }
    }
}

impl View for WorkerEvent {
    type V = Option<Report>;

    open spec fn view(&self) -> Option<Report> {
        match self.event {
            Some(event) => Some(event@),
            None => None,
        }
    }
}

impl ConnectionReport {
    /// The report in which no field is set.
    pub open spec fn blank() -> ConnectionReport {
        ConnectionReport {
            phone: Seq::empty(),
            status: Seq::empty(),
            qr: Seq::empty(),
            pairing_code: Seq::empty(),
        }
    }
}

impl ConnectionEvent {
    /// The event in which no field is set.
    pub fn new() -> (event: ConnectionEvent)
        ensures
            event@ == ConnectionReport::blank(),
    {
        ConnectionEvent {
            phone: String::new(),
            status: String::new(),
            qr: String::new(),
            pairing_code: String::new(),
        }
    }
}

/// The number of the field of a worker event that holds a connection
/// report.
pub const TAG_CONNECTION: u32 = 1;

/// The number of the field of a worker event that holds a log line.
pub const TAG_RAW_LOG: u32 = 2;

/// The report with the field of number `tag` set to `text`. The fields of a
/// connection report are numbered from 1: phone, status, QR payload, pairing
/// code.
pub open spec fn with_field(report: ConnectionReport, tag: u32, text: Seq<char>) -> ConnectionReport {
    if tag == 1 {
        ConnectionReport { phone: text, ..report }
    } else if tag == 2 {
        ConnectionReport { status: text, ..report }
    } else if tag == 3 {
        ConnectionReport { qr: text, ..report }
    } else {
        ConnectionReport { pairing_code: text, ..report }
    }
}

/// What follows the value of an unknown field of this wire type and number at
/// the start of `bytes`, or `None` where the value cannot be skipped.
pub open spec fn after_unknown(wire: u8, tag: u32, bytes: Seq<u8>) -> Option<Seq<u8>> {
    match skipped_field(wire, tag, bytes) {
        Some(left) => if left <= bytes.len() {
            Some(bytes.skip(bytes.len() - left))
        } else {
            None
        },
        None => None,
    }
}

/// The first field of `bytes`, taken into a connection report: the report
/// that it makes of `report` and the bytes that follow it. Each of the four
/// text fields replaces what the report held; a field of another number is
/// skipped. `None` where the bytes begin with no well-formed field.
pub open spec fn connection_field(report: ConnectionReport, bytes: Seq<u8>) -> Option<
    (ConnectionReport, Seq<u8>),
> {
    match field_key(bytes) {
        None => None,
        Some((tag, wire, count)) => {
            let value = bytes.skip(count as int);
            if 1 <= tag <= 4 {
                match text_field(wire, value) {
                    Some((text, taken)) => Some(
                        (with_field(report, tag, text), value.skip(taken as int)),
                    ),
                    None => None,
                }
            } else {
                match after_unknown(wire, tag, value) {
                    Some(rest) => Some((report, rest)),
                    None => None,
                }
            }
        },
    }
}

/// The connection report that the fields in `bytes` make of `report`, taken
/// in one after the other, so that the last field of a number wins. `None`
/// where the bytes are no run of well-formed fields.
pub open spec fn merged_connection(report: ConnectionReport, bytes: Seq<u8>) -> Option<
    ConnectionReport,
>
    decreases bytes.len(),
{
    if bytes.len() == 0 {
        Some(report)
    } else {
        match connection_field(report, bytes) {
            Some((next, rest)) => {
                proof {
                    lemma_connection_field_advances(report, bytes);
                }
                merged_connection(next, rest)
            },
            None => None,
        }
    }
}

/// The connection report that a worker event holds before a further
/// connection field is merged into it: the one it holds, or a blank one.
pub open spec fn held_connection(held: Option<Report>) -> ConnectionReport {
    match held {
        Some(Report::Connection(report)) => report,
        _ => ConnectionReport::blank(),
    }
}

/// The first field of `bytes`, taken into a worker event: the event that it
/// makes of `held` and the bytes that follow it. A connection field is
/// merged into the connection report that is held, or into a blank one; a
/// log field replaces what is held; a field of another number is skipped.
/// `None` where the bytes begin with no well-formed field.
pub open spec fn event_field(held: Option<Report>, bytes: Seq<u8>) -> Option<
    (Option<Report>, Seq<u8>),
> {
    match field_key(bytes) {
        None => None,
        Some((tag, wire, count)) => {
            let value = bytes.skip(count as int);
            if tag == TAG_CONNECTION {
                if wire != WIRE_LENGTH_DELIMITED {
                    None
                } else {
                    match delimited(value) {
                        Some((content, taken)) => match merged_connection(
                            held_connection(held),
                            content,
                        ) {
                            Some(report) => Some(
                                (Some(Report::Connection(report)), value.skip(taken as int)),
                            ),
                            None => None,
                        },
                        None => None,
                    }
                }
            } else if tag == TAG_RAW_LOG {
                match text_field(wire, value) {
                    Some((line, taken)) => Some(
                        (Some(Report::RawLog(line)), value.skip(taken as int)),
                    ),
                    None => None,
                }
            } else {
                match after_unknown(wire, tag, value) {
                    Some(rest) => Some((held, rest)),
                    None => None,
                }
            }
        },
    }
}

/// The event that the fields in `bytes` make of `held`, taken in one after
/// the other. `None` where the bytes are no run of well-formed fields.
pub open spec fn merged_event(held: Option<Report>, bytes: Seq<u8>) -> Option<Option<Report>>
    decreases bytes.len(),
{
    if bytes.len() == 0 {
        Some(held)
    } else {
        match event_field(held, bytes) {
            Some((next, rest)) => {
                proof {
                    lemma_event_field_advances(held, bytes);
                }
                merged_event(next, rest)
            },
            None => None,
        }
    }
}

/// The worker event that `payload` holds, or `None` where it holds none.
pub open spec fn decoded(payload: Seq<u8>) -> Option<Option<Report>> {
    merged_event(None, payload)
}

/// The bytes of field `tag` of a connection report: none for an empty text,
/// else the key and the text.
pub open spec fn encoded_text(tag: u32, text: Seq<char>) -> Seq<u8> {
    if text.len() == 0 {
        Seq::empty()
    } else {
        key_bytes(tag, WIRE_LENGTH_DELIMITED) + text_bytes(text)
    }
}

/// The bytes of a connection report: its fields that are not empty, in the
/// order of their numbers.
pub open spec fn encoded_connection(report: ConnectionReport) -> Seq<u8> {
    encoded_text(1, report.phone) + encoded_text(2, report.status) + encoded_text(3, report.qr)
        + encoded_text(4, report.pairing_code)
}

/// The payload that holds `event`: nothing for no event, else the one field
/// of the event.
pub open spec fn encoded_event(event: Option<Report>) -> Seq<u8> {
    match event {
        None => Seq::empty(),
        Some(Report::Connection(report)) => key_bytes(TAG_CONNECTION, WIRE_LENGTH_DELIMITED)
            + delimited_bytes(encoded_connection(report)),
        Some(Report::RawLog(line)) => key_bytes(TAG_RAW_LOG, WIRE_LENGTH_DELIMITED) + text_bytes(
            line,
        ),
    }
}

/// Whether the texts of `report` are short enough for their lengths to be
/// written down.
pub open spec fn connection_fits(report: ConnectionReport) -> bool {
    &&& encode_utf8(report.phone).len() <= u64::MAX
    &&& encode_utf8(report.status).len() <= u64::MAX
    &&& encode_utf8(report.qr).len() <= u64::MAX
    &&& encode_utf8(report.pairing_code).len() <= u64::MAX
    &&& encoded_connection(report).len() <= u64::MAX
}

/// Whether the texts of `event` are short enough for their lengths to be
/// written down.
pub open spec fn event_fits(event: Option<Report>) -> bool {
    match event {
        None => true,
        Some(Report::Connection(report)) => connection_fits(report),
        Some(Report::RawLog(line)) => encode_utf8(line).len() <= u64::MAX,
    }
}

/// A field of a connection report is read back into the report: the bytes of
/// a text that is not empty set the field, and the bytes of an empty text,
/// which are none, leave it as it is.
pub proof fn lemma_text_merges(report: ConnectionReport, tag: u32, text: Seq<char>, rest: Seq<u8>)
    requires
        1 <= tag <= 4,
        encode_utf8(text).len() <= u64::MAX,
    ensures
        merged_connection(report, encoded_text(tag, text) + rest) == merged_connection(
            if text.len() == 0 {
                report
            } else {
                with_field(report, tag, text)
            },
            rest,
        ),
{
    if text.len() == 0 {
        assert(encoded_text(tag, text) + rest =~= rest);
    } else {
        let bytes = encoded_text(tag, text) + rest;
        let key = key_bytes(tag, WIRE_LENGTH_DELIMITED);
        lemma_key_reads_back(tag, WIRE_LENGTH_DELIMITED, text_bytes(text) + rest);
        assert(bytes =~= key + (text_bytes(text) + rest));
        let value = bytes.skip(key.len() as int);
        assert(value =~= text_bytes(text) + rest);
        lemma_text_reads_back(text, rest);
        assert(value.skip(text_bytes(text).len() as int) =~= rest);
        lemma_field_key_count(bytes);
        assert(connection_field(report, bytes) == Some((with_field(report, tag, text), rest)));
    }
}

/// The bytes of a connection report are read back as that report.
pub proof fn lemma_connection_reads_back(report: ConnectionReport)
    requires
        connection_fits(report),
    ensures
        merged_connection(ConnectionReport::blank(), encoded_connection(report)) == Some(report),
{
    let blank = ConnectionReport::blank();
    let tail4 = encoded_text(4, report.pairing_code);
    let tail3 = encoded_text(3, report.qr) + tail4;
    let tail2 = encoded_text(2, report.status) + tail3;
    assert(encoded_connection(report) =~= encoded_text(1, report.phone) + tail2);
    lemma_text_merges(blank, 1, report.phone, tail2);
    let first = ConnectionReport { phone: report.phone, ..blank };
    assert(report.phone.len() == 0 ==> report.phone =~= blank.phone);
    lemma_text_merges(first, 2, report.status, tail3);
    let second = ConnectionReport { status: report.status, ..first };
    assert(report.status.len() == 0 ==> report.status =~= first.status);
    lemma_text_merges(second, 3, report.qr, tail4);
    let third = ConnectionReport { qr: report.qr, ..second };
    assert(report.qr.len() == 0 ==> report.qr =~= second.qr);
    lemma_text_merges(third, 4, report.pairing_code, Seq::empty());
    assert(tail4 + Seq::<u8>::empty() =~= tail4);
    let fourth = ConnectionReport { pairing_code: report.pairing_code, ..third };
    assert(report.pairing_code.len() == 0 ==> report.pairing_code =~= third.pairing_code);
    assert(fourth == report);
}

/// The payload that holds an event is read back as that event: whatever a
/// worker reports arrives as it was sent.
pub proof fn lemma_event_reads_back(event: Option<Report>)
    requires
        event_fits(event),
    ensures
        decoded(encoded_event(event)) == Some(event),
{
    let payload = encoded_event(event);
    assert(merged_event(event, Seq::empty()) == Some(event));
    match event {
        None => {
            assert(payload.len() == 0);
        },
        Some(Report::Connection(report)) => {
            let key = key_bytes(TAG_CONNECTION, WIRE_LENGTH_DELIMITED);
            let content = encoded_connection(report);
            lemma_key_reads_back(TAG_CONNECTION, WIRE_LENGTH_DELIMITED, delimited_bytes(content));
            let value = payload.skip(key.len() as int);
            assert(value =~= delimited_bytes(content));
            lemma_delimited_reads_back(content, Seq::empty());
            assert(delimited_bytes(content) + Seq::<u8>::empty() =~= delimited_bytes(content));
            lemma_connection_reads_back(report);
            assert(value.skip(delimited_bytes(content).len() as int) =~= Seq::<u8>::empty());
            lemma_field_key_count(payload);
            assert(event_field(None, payload) == Some((event, Seq::<u8>::empty())));
        },
        Some(Report::RawLog(line)) => {
            let key = key_bytes(TAG_RAW_LOG, WIRE_LENGTH_DELIMITED);
            lemma_key_reads_back(TAG_RAW_LOG, WIRE_LENGTH_DELIMITED, text_bytes(line));
            let value = payload.skip(key.len() as int);
            assert(value =~= text_bytes(line));
            lemma_text_reads_back(line, Seq::empty());
            assert(text_bytes(line) + Seq::<u8>::empty() =~= text_bytes(line));
            assert(value.skip(text_bytes(line).len() as int) =~= Seq::<u8>::empty());
            lemma_field_key_count(payload);
            assert(event_field(None, payload) == Some((event, Seq::<u8>::empty())));
        },
    }
}

/// An empty text says what a missing field says: set on a blank report, it
/// leaves the report blank.
pub proof fn lemma_empty_field_is_absent(tag: u32)
    requires
        1 <= tag <= 4,
    ensures
        with_field(ConnectionReport::blank(), tag, Seq::empty()) == ConnectionReport::blank(),
{
}

/// A field of a connection report takes at least one byte.
pub proof fn lemma_connection_field_advances(report: ConnectionReport, bytes: Seq<u8>)
    ensures
        connection_field(report, bytes) matches Some((next, rest)) ==> rest.len() < bytes.len(),
{
    lemma_field_key_count(bytes);
}

/// A field of a worker event takes at least one byte.
pub proof fn lemma_event_field_advances(held: Option<Report>, bytes: Seq<u8>)
    ensures
        event_field(held, bytes) matches Some((next, rest)) ==> rest.len() < bytes.len(),
{
    lemma_field_key_count(bytes);
}

impl ConnectionEvent {
    /// Sets the field of number `tag`, which is between 1 and 4.
    fn set_field(&mut self, tag: u32, text: String)
        requires
            1 <= tag <= 4,
        ensures
            final(self)@ == with_field(old(self)@, tag, text@),
    {
        if tag == 1 {
            self.phone = text;
        } else if tag == 2 {
            self.status = text;
        } else if tag == 3 {
            self.qr = text;
        } else {
            self.pairing_code = text;
        }
    }

    /// Takes the first field of `bytes` into `self` and tells how many bytes
    /// follow it, or fails where the bytes begin with no well-formed field.
    fn merge_field(&mut self, bytes: &[u8]) -> (left: Option<usize>)
        ensures
            match left {
                Some(left) => left < bytes.len() && connection_field(old(self)@, bytes@) == Some(
                    (final(self)@, bytes@.skip(bytes.len() - left)),
                ),
                None => connection_field(old(self)@, bytes@) is None,
            },
    {
        proof {
            lemma_field_key_count(bytes@);
        }
        let (tag, wire, left) = match read_key(bytes) {
            Some(key) => key,
            None => {
                return None;
            },
        };
        let value = slice_subrange(bytes, bytes.len() - left, bytes.len());
        assert(value@ =~= bytes@.skip(bytes.len() - left));
        if 1 <= tag && tag <= 4 {
            match read_text(wire, value) {
                Some((text, rest)) => {
                    self.set_field(tag, text);
                    assert(bytes@.skip(bytes.len() - rest) =~= value@.skip(value.len() - rest));
                    Some(rest)
                },
                None => None,
            }
        } else {
            match skip_value(wire, tag, value) {
                Some(rest) => {
                    assert(bytes@.skip(bytes.len() - rest) =~= value@.skip(value.len() - rest));
                    Some(rest)
                },
                None => None,
            }
        }
    }

    /// Merges the fields in `bytes` into `self`, or fails where the bytes are
    /// no run of well-formed fields.
    fn merge(self, bytes: &[u8]) -> (merged: Option<ConnectionEvent>)
        ensures
            match merged {
                Some(event) => merged_connection(self@, bytes@) == Some(event@),
                None => merged_connection(self@, bytes@) is None,
            },
    {
        let mut report = self;
        let mut at: usize = 0;
        assert(bytes@.skip(0) =~= bytes@);
        while at < bytes.len()
            invariant
                at <= bytes.len(),
                merged_connection(self@, bytes@) == merged_connection(report@, bytes@.skip(at as int)),
            decreases bytes.len() - at,
        {
            let here = slice_subrange(bytes, at, bytes.len());
            assert(here@ =~= bytes@.skip(at as int));
            match report.merge_field(here) {
                Some(left) => {
                    assert(bytes@.skip(bytes.len() - left) =~= here@.skip(here.len() - left));
                    at = bytes.len() - left;
                },
                None => {
                    return None;
                },
            }
        }
        assert(bytes@.skip(at as int).len() == 0);
        Some(report)
    }
}

/// Reads the connection report that begins at the start of `value`, after
/// its key, and merges it into `base`. Hands out the report and the number
/// of bytes that follow it.
fn read_connection(base: ConnectionEvent, value: &[u8]) -> (found: Option<(ConnectionEvent, usize)>)
    ensures
        match found {
            Some((report, left)) => left <= value.len() && (delimited(value@) matches Some(
                (content, taken),
            ) && merged_connection(base@, content) == Some(report@) && taken == value.len()
                - left),
            None => match delimited(value@) {
                Some((content, taken)) => merged_connection(base@, content) is None,
                None => true,
            },
        },
{
    proof {
        lemma_varint_count(value@);
    }
    let (length, after) = match read_varint(value) {
        Some(found) => found,
        None => {
            return None;
        },
    };
    if length > after as u64 {
        return None;
    }
    let start = value.len() - after;
    let end = start + length as usize;
    let content = slice_subrange(value, start, end);
    match base.merge(content) {
        Some(report) => Some((report, value.len() - end)),
        None => None,
    }
}

/// Takes the first field of `bytes` into the event `held` and hands out the
/// event with the number of bytes that follow the field, or fails where the
/// bytes begin with no well-formed field.
fn read_event_field(held: Option<Event>, bytes: &[u8]) -> (found: Option<(Option<Event>, usize)>)
    ensures
        match found {
            Some((next, left)) => left < bytes.len() && event_field(
                (WorkerEvent { event: held })@,
                bytes@,
            ) == Some(((WorkerEvent { event: next })@, bytes@.skip(bytes.len() - left))),
            None => event_field((WorkerEvent { event: held })@, bytes@) is None,
        },
{
    proof {
        lemma_field_key_count(bytes@);
    }
    let (tag, wire, left) = match read_key(bytes) {
        Some(key) => key,
        None => {
            return None;
        },
    };
    let value = slice_subrange(bytes, bytes.len() - left, bytes.len());
    assert(value@ =~= bytes@.skip(bytes.len() - left));
    if tag == TAG_CONNECTION {
        if wire != WIRE_LENGTH_DELIMITED {
            return None;
        }
        let base = match held {
            Some(Event::Connection(report)) => report,
            _ => ConnectionEvent::new(),
        };
        match read_connection(base, value) {
            Some((report, rest)) => {
                assert(bytes@.skip(bytes.len() - rest) =~= value@.skip(value.len() - rest));
                Some((Some(Event::Connection(report)), rest))
            },
            None => None,
        }
    } else if tag == TAG_RAW_LOG {
        match read_text(wire, value) {
            Some((line, rest)) => {
                assert(bytes@.skip(bytes.len() - rest) =~= value@.skip(value.len() - rest));
                Some((Some(Event::RawLog(line)), rest))
            },
            None => None,
        }
    } else {
        match skip_value(wire, tag, value) {
            Some(rest) => {
                assert(bytes@.skip(bytes.len() - rest) =~= value@.skip(value.len() - rest));
                Some((held, rest))
            },
            None => None,
        }
    }
}

impl WorkerEvent {
    /// Reads a worker event from the payload of a frame, or tells that the
    /// payload holds none.
    pub fn decode(payload: &[u8]) -> (event: Option<WorkerEvent>)
        ensures
            match event {
                Some(event) => decoded(payload@) == Some(event@),
                None => decoded(payload@) is None,
            },
    {
        let mut held: Option<Event> = None;
        let mut at: usize = 0;
        assert(payload@.skip(0) =~= payload@);
        while at < payload.len()
            invariant
                at <= payload.len(),
                decoded(payload@) == merged_event(
                    (WorkerEvent { event: held })@,
                    payload@.skip(at as int),
                ),
            decreases payload.len() - at,
        {
            let here = slice_subrange(payload, at, payload.len());
            assert(here@ =~= payload@.skip(at as int));
            match read_event_field(held, here) {
                Some((next, left)) => {
                    assert(payload@.skip(payload.len() - left) =~= here@.skip(here.len() - left));
                    held = next;
                    at = payload.len() - left;
                },
                None => {
                    return None;
                },
            }
        }
        assert(payload@.skip(at as int).len() == 0);
        Some(WorkerEvent { event: held })
    }
}

} // verus!
