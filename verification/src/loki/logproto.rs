//! The batch as the store takes it: a push request of streams of entries,
//! and its bytes in the protobuf wire format.
//!
//! A push request holds its streams as field 1. A stream holds its label
//! string as field 1 and its entries as field 2. An entry holds its time as
//! field 1 and its line as field 2. A time holds seconds as field 1 and
//! nanoseconds as field 2. Strings and nested messages are written behind
//! their length; numbers are written as varints; a field that is zero or
//! empty is left out.
use crate::clock::EpochTime;
use crate::errors::ScrapeError;
use crate::log::{LogMetric, LogMetricView};
use crate::loki::{get_labels_string, labels_string};
use crate::models::LogMessage;
use quick_protobuf::Writer;
use vstd::prelude::*;
use vstd::utf8::encode_utf8;

verus! {

/// Seconds and nanoseconds since the Unix epoch.
#[derive(Clone, Copy, Debug, PartialEq, Eq, Structural)]
pub struct Timestamp {
    pub seconds: i64,
    pub nanos: i32,
}

/// One line of text with its time.
pub struct Entry {
    pub ts: Option<Timestamp>,
    pub line: String,
}

/// The entries of one combination of labels.
pub struct Stream {
    pub labels: String,
    pub entries: Vec<Entry>,
}

/// A batch of streams.
pub struct PushRequest {
    pub streams: Vec<Stream>,
}

/// What an entry holds, as mathematical values.
pub struct EntryView {
    pub ts: Option<Timestamp>,
    pub line: Seq<char>,
}

/// What a stream holds, as mathematical values.
pub struct StreamView {
    pub labels: Seq<char>,
    pub entries: Seq<EntryView>,
}

impl View for Entry {
    type V = EntryView;

    open spec fn view(&self) -> EntryView {
        EntryView { ts: self.ts, line: self.line@ }
    }
}

/// The views of a sequence of entries.
pub open spec fn entries_view(entries: Seq<Entry>) -> Seq<EntryView> {
    Seq::new(entries.len(), |i: int| entries[i]@)
}

impl View for Stream {
    type V = StreamView;

    open spec fn view(&self) -> StreamView {
        StreamView { labels: self.labels@, entries: entries_view(self.entries@) }
    }
}

/// The views of a sequence of streams.
pub open spec fn streams_view(streams: Seq<Stream>) -> Seq<StreamView> {
    Seq::new(streams.len(), |i: int| streams[i]@)
}

impl View for PushRequest {
    type V = Seq<StreamView>;

    open spec fn view(&self) -> Seq<StreamView> {
        streams_view(self.streams@)
    }
}

/// The time of a message as the wire format carries it.
pub open spec fn timestamp_of(time: EpochTime) -> Timestamp {
    Timestamp { seconds: time.spec_secs() as i64, nanos: time.spec_subsec_nanos() as i32 }
}

/// The entry that a message becomes.
pub open spec fn entry_of(message: LogMessage) -> EntryView {
    EntryView { ts: Some(timestamp_of(message.time)), line: message.message@ }
}

/// The entries that the messages of a queue become, oldest first.
pub open spec fn entries_of(messages: Seq<LogMessage>) -> Seq<EntryView> {
    Seq::new(messages.len(), |i: int| entry_of(messages[i]))
}

/// The stream that a queue becomes when it is drained.
pub open spec fn stream_of(queue: LogMetricView) -> StreamView {
    StreamView {
        labels: labels_string(queue.config, queue.labels),
        entries: entries_of(queue.messages),
    }
}

/// The queue after all its messages were taken out.
pub open spec fn emptied(queue: LogMetricView) -> LogMetricView {
    LogMetricView { messages: Seq::empty(), ..queue }
}

/// The wire type of a number written as a varint.
pub const WIRE_VARINT: u64 = 0;

/// The wire type of bytes written behind their length.
pub const WIRE_LEN: u64 = 2;

/// A number as a varint: seven bits to the byte, lowest first, the high
/// bit set on every byte but the last.
pub open spec fn varint(value: u64) -> Seq<u8>
    decreases value,
{
    if value < 0x80 {
        seq![value as u8]
    } else {
        seq![((value % 0x80) + 0x80) as u8] + varint(value / 0x80)
    }
}

/// The key that stands before the value of field number `field`.
pub open spec fn field_key(field: u64, wire_type: u64) -> Seq<u8> {
    varint((field * 8 + wire_type) as u64)
}

/// Bytes behind their length.
pub open spec fn delimited(bytes: Seq<u8>) -> Seq<u8> {
    varint(bytes.len() as u64) + bytes
}

/// A signed number as the unsigned number with the same 64 bits.
pub open spec fn unsigned(value: int) -> u64 {
    if value >= 0 {
        value as u64
    } else {
        (value + 0x1_0000_0000_0000_0000) as u64
    }
}

/// The bytes of a time.
pub open spec fn timestamp_bytes(ts: Timestamp) -> Seq<u8> {
    (if ts.seconds != 0 {
        field_key(1, WIRE_VARINT) + varint(unsigned(ts.seconds as int))
    } else {
        Seq::empty()
    }) + (if ts.nanos != 0 {
        field_key(2, WIRE_VARINT) + varint(unsigned(ts.nanos as int))
    } else {
        Seq::empty()
    })
}

/// The bytes of an entry.
pub open spec fn entry_bytes(entry: EntryView) -> Seq<u8> {
    (match entry.ts {
        Some(ts) => field_key(1, WIRE_LEN) + delimited(timestamp_bytes(ts)),
        None => Seq::empty(),
    }) + (if entry.line.len() != 0 {
        field_key(2, WIRE_LEN) + delimited(encode_utf8(entry.line))
    } else {
        Seq::empty()
    })
}

/// The bytes of the entries of a stream, each as field 2.
pub open spec fn entries_bytes(entries: Seq<EntryView>) -> Seq<u8>
    decreases entries.len(),
{
    if entries.len() == 0 {
        Seq::empty()
    } else {
        entries_bytes(entries.drop_last()) + field_key(2, WIRE_LEN) + delimited(
            entry_bytes(entries.last()),
        )
    }
}

/// The bytes of a stream.
pub open spec fn stream_bytes(stream: StreamView) -> Seq<u8> {
    (if stream.labels.len() != 0 {
        field_key(1, WIRE_LEN) + delimited(encode_utf8(stream.labels))
    } else {
        Seq::empty()
    }) + entries_bytes(stream.entries)
}

/// The bytes of a push request: its streams, each as field 1.
pub open spec fn request_bytes(streams: Seq<StreamView>) -> Seq<u8>
    decreases streams.len(),
{
    if streams.len() == 0 {
        Seq::empty()
    } else {
        request_bytes(streams.drop_last()) + field_key(1, WIRE_LEN) + delimited(
            stream_bytes(streams.last()),
        )
    }
}

/// `Writer::write_varint` on a writer that appends to `buf`: the crate
/// writes the low seven bits of the number with the high bit set while
/// more than seven bits are left, then the rest as one byte. Every byte
/// goes to the vector through std's `write_all`, which appends and never
/// fails, so the writer never fails either.
#[verifier::external_body]
fn write_varint(buf: &mut Vec<u8>, value: u64) -> (written: Result<(), quick_protobuf::Error>)
    ensures
        written is Ok,
        final(buf)@ == old(buf)@ + varint(value),
{
    Writer::new(buf).write_varint(value)
}

/// `Writer::write_bytes` on a writer that appends to `buf`: the crate
/// writes the length of the bytes as a varint, then the bytes. Both go to
/// the vector through std's `write_all`, which appends and never fails, so
/// the writer never fails either.
#[verifier::external_body]
fn write_bytes(buf: &mut Vec<u8>, bytes: &[u8]) -> (written: Result<(), quick_protobuf::Error>)
    ensures
        written is Ok,
        final(buf)@ == old(buf)@ + delimited(bytes@),
{
    Writer::new(buf).write_bytes(bytes)
}

/// Appends a varint to `buf`.
fn put_varint(buf: &mut Vec<u8>, value: u64) -> (done: Result<(), ScrapeError>)
    ensures
        done is Ok,
        final(buf)@ == old(buf)@ + varint(value),
{
    match write_varint(buf, value) {
        Ok(()) => Ok(()),
        Err(e) => Err(ScrapeError::SerializeError(e)),
    }
}

/// Appends the key of a field to `buf`.
fn put_key(buf: &mut Vec<u8>, field: u64, wire_type: u64) -> (done: Result<(), ScrapeError>)
    requires
        field <= 0xffff,
        wire_type <= 7,
    ensures
        done is Ok,
        final(buf)@ == old(buf)@ + field_key(field, wire_type),
{
    put_varint(buf, field * 8 + wire_type)
}

/// Appends bytes behind their length to `buf`.
fn put_bytes(buf: &mut Vec<u8>, bytes: &[u8]) -> (done: Result<(), ScrapeError>)
    ensures
        done is Ok,
        final(buf)@ == old(buf)@ + delimited(bytes@),
{
    match write_bytes(buf, bytes) {
        Ok(()) => Ok(()),
        Err(e) => Err(ScrapeError::SerializeError(e)),
    }
}

/// The unsigned number with the bits of a signed one.
fn to_unsigned(value: i64) -> (bits: u64)
    ensures
        bits == unsigned(value as int),
{
    if value >= 0 {
        value as u64
    } else {
        ((value + i64::MAX) + 1) as u64 + 0x8000_0000_0000_0000u64
    }
}

impl Timestamp {
    /// The time `time` in the form of the wire format.
    pub fn from(time: EpochTime) -> (ts: Timestamp)
        ensures
            ts == timestamp_of(time),
            ts.seconds == time.spec_secs(),
            ts.nanos == time.spec_subsec_nanos(),
    {
        Timestamp { seconds: time.secs() as i64, nanos: time.subsec_nanos() as i32 }
    }
}

impl Entry {
    /// The entry of a message: its text with its time.
    pub fn from(message: LogMessage) -> (entry: Entry)
        ensures
            entry@ == entry_of(message),
            entry.line == message.message,
    {
        Entry { ts: Some(Timestamp::from(message.time)), line: message.message }
    }
}

impl Stream {
    /// Drains `metric` into a stream: every message becomes an entry, oldest
    /// first, under the label string of the queue. The queue is left empty.
    pub fn from(metric: &mut LogMetric) -> (stream: Stream)
        requires
            old(metric)@.wf(),
        ensures
            stream@ == stream_of(old(metric)@),
            final(metric)@ == emptied(old(metric)@),
    {
        let labels = get_labels_string(metric.config(), metric.labels());
        let mut entries: Vec<Entry> = Vec::with_capacity(metric.len());
        while metric.len() > 0
            invariant
                metric@.labels == old(metric)@.labels,
                metric@.config == old(metric)@.config,
                metric@.capacity == old(metric)@.capacity,
                entries@.len() + metric@.messages.len() == old(metric)@.messages.len(),
                entries_view(entries@) == entries_of(old(metric)@.messages).take(
                    entries@.len() as int,
                ),
                metric@.messages == old(metric)@.messages.skip(entries@.len() as int),
            decreases metric@.messages.len(),
        {
            let ghost done = entries@;
            let ghost left = metric@.messages;
            if let Some(message) = metric.pop() {
                entries.push(Entry::from(message));
                proof {
                    let all = old(metric)@.messages;
                    assert(left.first() == all[done.len() as int]);
                    assert(metric@.messages =~= all.skip(done.len() as int + 1));
                    assert(entries_view(entries@) =~= entries_of(all).take(done.len() as int + 1));
                }
            }
        }
        proof {
            assert(entries_of(old(metric)@.messages).take(entries@.len() as int) =~= entries_of(
                old(metric)@.messages,
            ));
            assert(metric@.messages =~= Seq::empty());
        }
        Stream { labels, entries }
    }

    pub fn len(&self) -> (len: usize)
        ensures
            len == self@.entries.len(),
    {
        self.entries.len()
    }
}

impl PushRequest {
    /// The batch of the given streams.
    pub fn from(streams: Vec<Stream>) -> (request: PushRequest)
        ensures
            request.streams == streams,
    {
        PushRequest { streams }
    }
}

impl Timestamp {
    /// Appends the bytes of the time to `buf`.
    pub fn write_message(&self, buf: &mut Vec<u8>) -> (done: Result<(), ScrapeError>)
        ensures
            done is Ok,
        final(buf)@ == old(buf)@ + timestamp_bytes(*self),
        {
        let ghost start = buf@;
        if self.seconds != 0 {
            put_key(buf, 1, WIRE_VARINT)?;
            put_varint(buf, to_unsigned(self.seconds))?;
        }
        let ghost middle = buf@;
        if self.nanos != 0 {
            put_key(buf, 2, WIRE_VARINT)?;
            put_varint(buf, to_unsigned(self.nanos as i64))?;
        }
        proof {
            assert(buf@ =~= start + timestamp_bytes(*self));
        }
        Ok(())
    }
}

impl Entry {
    /// Appends the bytes of the entry to `buf`.
    pub fn write_message(&self, buf: &mut Vec<u8>) -> (done: Result<(), ScrapeError>)
        ensures
            done is Ok,
        final(buf)@ == old(buf)@ + entry_bytes(self@),
        {
        let ghost start = buf@;
        if let Some(ts) = self.ts {
            let mut inner: Vec<u8> = Vec::new();
            ts.write_message(&mut inner)?;
            put_key(buf, 1, WIRE_LEN)?;
            put_bytes(buf, inner.as_slice())?;
            proof {
                assert(inner@ =~= timestamp_bytes(ts));
            }
        }
        if !self.line.as_str().is_empty() {
            put_key(buf, 2, WIRE_LEN)?;
            put_bytes(buf, self.line.as_str().as_bytes())?;
        }
        proof {
            assert(buf@ =~= start + entry_bytes(self@));
        }
        Ok(())
    }
}

impl Stream {
    /// Appends the bytes of the stream to `buf`.
    pub fn write_message(&self, buf: &mut Vec<u8>) -> (done: Result<(), ScrapeError>)
        ensures
            done is Ok,
        final(buf)@ == old(buf)@ + stream_bytes(self@),
        {
        let ghost start = buf@;
        if !self.labels.as_str().is_empty() {
            put_key(buf, 1, WIRE_LEN)?;
            put_bytes(buf, self.labels.as_str().as_bytes())?;
        }
        let ghost head = buf@;
        let ghost entries = self@.entries;
        let mut i: usize = 0;
        proof {
            assert(entries.take(0) =~= Seq::empty());
        }
        while i < self.entries.len()
            invariant
                i <= self.entries.len(),
                entries == self@.entries,
                buf@ == head + entries_bytes(entries.take(i as int)),
            decreases self.entries.len() - i,
        {
            let mut inner: Vec<u8> = Vec::new();
            self.entries[i].write_message(&mut inner)?;
            put_key(buf, 2, WIRE_LEN)?;
            put_bytes(buf, inner.as_slice())?;
            proof {
                assert(inner@ =~= entry_bytes(entries[i as int]));
                assert(entries.take(i + 1).drop_last() =~= entries.take(i as int));
                assert(buf@ =~= head + entries_bytes(entries.take(i + 1)));
            }
            i += 1;
        }
        proof {
            assert(entries.take(i as int) =~= entries);
            assert(buf@ =~= start + stream_bytes(self@));
        }
        Ok(())
    }
}

impl PushRequest {
    /// Appends the bytes of the request to `buf`.
    pub fn write_message(&self, buf: &mut Vec<u8>) -> (done: Result<(), ScrapeError>)
        ensures
            done is Ok,
        final(buf)@ == old(buf)@ + request_bytes(self@),
        {
        let ghost start = buf@;
        let ghost streams = self@;
        let mut i: usize = 0;
        proof {
            assert(streams.take(0) =~= Seq::empty());
            assert(buf@ =~= start + request_bytes(streams.take(0)));
        }
        while i < self.streams.len()
            invariant
                i <= self.streams.len(),
                streams == self@,
                buf@ == start + request_bytes(streams.take(i as int)),
            decreases self.streams.len() - i,
        {
            let mut inner: Vec<u8> = Vec::new();
            self.streams[i].write_message(&mut inner)?;
            put_key(buf, 1, WIRE_LEN)?;
            put_bytes(buf, inner.as_slice())?;
            proof {
                assert(inner@ =~= stream_bytes(streams[i as int]));
                assert(streams.take(i + 1).drop_last() =~= streams.take(i as int));
                assert(buf@ =~= start + request_bytes(streams.take(i + 1)));
            }
            i += 1;
        }
        proof {
            assert(streams.take(i as int) =~= streams);
        }
        Ok(())
    }
}

} // verus!
