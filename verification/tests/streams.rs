use logpush::clock::{EpochTime, MAX_EPOCH_SECS};
use logpush::errors::ScrapeError;
use logpush::log::{Log, LogMetric};
use logpush::loki::logproto::{Entry, PushRequest, Stream, Timestamp};
use logpush::loki::scrape::{
    conclude, drain_streams, keep_non_empty, HttpReply, LokiScrapeConfig, LokiScrapeProcess,
    SyntheticError,
};
use logpush::loki::{get_labels_string, LokiEntry, LokiStream, FORMAT};
use logpush::models::{LogMessage, LogMetricConfBuilder};
use quick_protobuf::sizeofs::{sizeof_len, sizeof_varint};
use quick_protobuf::{MessageWrite, Writer, WriterBackend};
use std::cell::{Cell, RefCell};
use std::sync::Arc;

fn stream(labels: &str, lines: &[&str]) -> Stream {
    Stream {
        labels: labels.to_string(),
        entries: lines
            .iter()
            .map(|l| Entry { ts: Some(Timestamp { seconds: 1, nanos: 2 }), line: l.to_string() })
            .collect(),
    }
}

fn ok_reply() -> HttpReply {
    HttpReply { error: false, status: 204, body: String::new(), synthetic_error: None }
}

#[test]
fn labels_are_rendered_const_first_then_schema() {
    let c = LogMetricConfBuilder::new().add_const_label("job", "x").add_labels(&["a", "b"]).build();
    let values = vec!["1".to_string(), "2".to_string()];
    assert_eq!(get_labels_string(&c, &values), "{job=\"x\",a=\"1\",b=\"2\"}");
}

#[test]
fn labels_of_an_empty_schema_are_braces() {
    let c = LogMetricConfBuilder::new().build();
    assert_eq!(get_labels_string(&c, &Vec::new()), "{}");
}

#[test]
fn labels_with_only_const_or_only_schema() {
    let c = LogMetricConfBuilder::new().add_const_label("job", "x").add_const_label("env", "p").build();
    assert_eq!(get_labels_string(&c, &Vec::new()), "{job=\"x\",env=\"p\"}");
    let d = LogMetricConfBuilder::new().add_label("host").build();
    assert_eq!(get_labels_string(&d, &vec!["h1".to_string()]), "{host=\"h1\"}");
    // Values beyond the schema are not rendered.
    assert_eq!(
        get_labels_string(&d, &vec!["h1".to_string(), "spare".to_string()]),
        "{host=\"h1\"}"
    );
}

#[test]
fn end_to_end_two_messages_one_stream() {
    let mut log = Log::new();
    {
        let metric = log.get(LogMetricConfBuilder::new().add_labels(&["one", "two"]).build()).get(&["1", "2"]);
        metric.push("message1".to_string());
        metric.push("message2".to_string());
    }
    let streams = drain_streams(&mut log);
    assert_eq!(streams.len(), 1);
    assert_eq!(streams[0].labels, "{one=\"1\",two=\"2\"}");
    let lines: Vec<&str> = streams[0].entries.iter().map(|e| e.line.as_str()).collect();
    assert_eq!(lines, vec!["message1", "message2"]);
    assert_eq!(log.map(|m| m.len()), vec![0]);
    // A second drain finds the queue, and nothing in it.
    let again = drain_streams(&mut log);
    assert_eq!(again.len(), 1);
    assert_eq!(again[0].labels, "{one=\"1\",two=\"2\"}");
    assert!(again[0].entries.is_empty());
    assert!(keep_non_empty(again).is_empty());
}

#[test]
fn stream_from_drains_in_order_with_times() {
    let c = Arc::new(LogMetricConfBuilder::new().add_labels(&["one"]).build());
    let mut m = LogMetric::with_labels(c, &["1"]);
    m.push("a".to_string());
    m.push("b".to_string());
    let s = Stream::from(&mut m);
    assert_eq!(m.len(), 0);
    assert_eq!(s.len(), 2);
    assert_eq!(s.labels, "{one=\"1\"}");
    assert_eq!(s.entries[0].line, "a");
    assert_eq!(s.entries[1].line, "b");
    let ts = s.entries[0].ts.unwrap();
    assert!(ts.seconds > 1_577_836_800);
    assert!(ts.nanos >= 0 && ts.nanos < 1_000_000_000);
    let empty = Stream::from(&mut m);
    assert_eq!(empty.len(), 0);
    assert_eq!(empty.labels, "{one=\"1\"}");
}

#[test]
fn timestamp_and_entry_keep_the_reading() {
    let time = EpochTime::new(1_600_000_000, 123_456_789).unwrap();
    assert_eq!(Timestamp::from(time), Timestamp { seconds: 1_600_000_000, nanos: 123_456_789 });
    let e = Entry::from(LogMessage { time, message: "line".to_string() });
    assert_eq!(e.ts, Some(Timestamp { seconds: 1_600_000_000, nanos: 123_456_789 }));
    assert_eq!(e.line, "line");
    assert_eq!(
        Timestamp::from(EpochTime::new(MAX_EPOCH_SECS, 999_999_999).unwrap()),
        Timestamp { seconds: 253_402_300_799, nanos: 999_999_999 }
    );
}

#[test]
fn epoch_time_bounds() {
    assert!(EpochTime::new(0, 0).is_some());
    assert!(EpochTime::new(MAX_EPOCH_SECS, 999_999_999).is_some());
    assert!(EpochTime::new(MAX_EPOCH_SECS + 1, 0).is_none());
    assert!(EpochTime::new(0, 1_000_000_000).is_none());
    let t = EpochTime::clamped(5, 6);
    assert_eq!((t.secs(), t.subsec_nanos()), (5, 6));
    let late = EpochTime::clamped(u64::MAX, 3);
    assert_eq!((late.secs(), late.subsec_nanos()), (MAX_EPOCH_SECS, 999_999_999));
    let zero = EpochTime::epoch();
    assert_eq!((zero.secs(), zero.subsec_nanos()), (0, 0));
}

#[test]
fn loki_entry_writes_the_time_out() {
    assert_eq!(FORMAT, "%Y-%m-%dT%H:%M:%S%.6f%:z");
    let e = LokiEntry::from(LogMessage { time: EpochTime::epoch(), message: "x".to_string() });
    assert_eq!(e.ts, "1970-01-01T00:00:00.000000+00:00");
    assert_eq!(e.line, "x");
    let time = EpochTime::new(1_000_000_000, 123_456_789).unwrap();
    let f = LokiEntry::from(LogMessage { time, message: "y".to_string() });
    assert_eq!(f.ts, "2001-09-09T01:46:40.123456+00:00");
    let last = EpochTime::new(MAX_EPOCH_SECS, 999_999_999).unwrap();
    let g = LokiEntry::from(LogMessage { time: last, message: String::new() });
    assert_eq!(g.ts, "9999-12-31T23:59:59.999999+00:00");
}

#[test]
fn loki_stream_from_drains() {
    let c = Arc::new(LogMetricConfBuilder::new().add_const_label("job", "x").add_labels(&["a"]).build());
    let mut m = LogMetric::with_labels(c, &["1"]);
    m.push("first".to_string());
    m.push("second".to_string());
    let s = LokiStream::from(&mut m);
    assert_eq!(s.labels, "{job=\"x\",a=\"1\"}");
    assert_eq!(s.len(), 2);
    assert_eq!(s.entries[0].line, "first");
    assert_eq!(s.entries[1].line, "second");
    assert_eq!(s.entries[0].ts.len(), "1970-01-01T00:00:00.000000+00:00".len());
    assert_eq!(m.len(), 0);
}

#[test]
fn timestamp_bytes() {
    let mut buf = Vec::new();
    Timestamp { seconds: 1, nanos: 2 }.write_message(&mut buf).ok().unwrap();
    assert_eq!(buf, vec![0x08, 0x01, 0x10, 0x02]);
    let mut zero = Vec::new();
    Timestamp { seconds: 0, nanos: 0 }.write_message(&mut zero).ok().unwrap();
    assert!(zero.is_empty());
    let mut big = Vec::new();
    Timestamp { seconds: 300, nanos: 0 }.write_message(&mut big).ok().unwrap();
    assert_eq!(big, vec![0x08, 0xac, 0x02]);
    let mut negative = Vec::new();
    Timestamp { seconds: -1, nanos: -1 }.write_message(&mut negative).ok().unwrap();
    let mut expected = vec![0x08];
    expected.extend_from_slice(&[0xff; 9]);
    expected.push(0x01);
    expected.push(0x10);
    expected.extend_from_slice(&[0xff; 9]);
    expected.push(0x01);
    assert_eq!(negative, expected);
}

#[test]
fn entry_bytes() {
    let mut buf = vec![0xee];
    Entry { ts: Some(Timestamp { seconds: 1, nanos: 2 }), line: "hi".to_string() }
        .write_message(&mut buf)
        .ok()
        .unwrap();
    assert_eq!(buf, vec![0xee, 0x0a, 0x04, 0x08, 0x01, 0x10, 0x02, 0x12, 0x02, b'h', b'i']);
    let mut bare = Vec::new();
    Entry { ts: None, line: String::new() }.write_message(&mut bare).ok().unwrap();
    assert!(bare.is_empty());
    let mut epoch = Vec::new();
    Entry { ts: Some(Timestamp { seconds: 0, nanos: 0 }), line: "é".to_string() }
        .write_message(&mut epoch)
        .ok()
        .unwrap();
    assert_eq!(epoch, vec![0x0a, 0x00, 0x12, 0x02, 0xc3, 0xa9]);
}

#[test]
fn request_bytes() {
    let request = PushRequest::from(vec![stream("{a=\"1\"}", &["hi"])]);
    let mut buf = Vec::new();
    request.write_message(&mut buf).ok().unwrap();
    let expected: Vec<u8> = vec![
        0x0a, 0x15, // stream, 21 bytes
        0x0a, 0x07, b'{', b'a', b'=', b'"', b'1', b'"', b'}', // labels
        0x12, 0x0a, // entry, 10 bytes
        0x0a, 0x04, 0x08, 0x01, 0x10, 0x02, // time
        0x12, 0x02, b'h', b'i', // line
    ];
    assert_eq!(buf, expected);
    let mut none = Vec::new();
    PushRequest::from(Vec::new()).write_message(&mut none).ok().unwrap();
    assert!(none.is_empty());
}

#[test]
fn long_line_has_a_two_byte_length() {
    let line = "x".repeat(200);
    let mut buf = Vec::new();
    Entry { ts: None, line: line.clone() }.write_message(&mut buf).ok().unwrap();
    assert_eq!(&buf[..3], &[0x12, 0xc8, 0x01]);
    assert_eq!(&buf[3..], line.as_bytes());
}

#[test]
fn keep_non_empty_keeps_order() {
    let kept = keep_non_empty(vec![
        stream("a", &["1"]),
        stream("b", &[]),
        stream("c", &["2", "3"]),
        stream("d", &[]),
    ]);
    let labels: Vec<&str> = kept.iter().map(|s| s.labels.as_str()).collect();
    assert_eq!(labels, vec!["a", "c"]);
    assert!(keep_non_empty(Vec::new()).is_empty());
}

#[test]
fn send_with_nothing_to_send_makes_no_call() {
    let mut log = Log::new();
    log.get(LogMetricConfBuilder::new().add_labels(&["one"]).build()).get(&["1"]);
    log.get(LogMetricConfBuilder::new().add_labels(&["two"]).build()).get(&["2"]);
    let mut process = LokiScrapeProcess::new("http://localhost:3100/api/prom/push".to_string(), None, None, None);
    let calls = Cell::new(0);
    let items = drain_streams(&mut log);
    assert_eq!(items.len(), 2);
    let sent = process.send(items, |_call| {
        calls.set(calls.get() + 1);
        ok_reply()
    });
    assert!(matches!(sent, Ok(0)));
    assert_eq!(calls.get(), 0);
    let sent = process.send(Vec::new(), |_call| {
        calls.set(calls.get() + 1);
        ok_reply()
    });
    assert!(matches!(sent, Ok(0)));
    assert_eq!(calls.get(), 0);
}

#[test]
fn send_posts_the_compressed_batch_once() {
    let mut log = Log::new();
    {
        let metric = log
            .get(LogMetricConfBuilder::new().add_const_label("job", "x").add_labels(&["one", "two"]).build())
            .get(&["1", "2"]);
        metric.push("message1".to_string());
        metric.push("message2".to_string());
    }
    log.get(LogMetricConfBuilder::new().add_labels(&["idle"]).build()).get(&["3"]);
    let config = LokiScrapeConfig::new(
        "http://localhost:3100/api/prom/push".to_string(),
        1000,
        Some(3000),
        Some(60000),
        None,
    );
    assert_eq!(config.get_scrape_interval(), 1000);
    let mut process = config.get_scrape_process();
    let seen = RefCell::new(Vec::new());
    let sent = process.send(drain_streams(&mut log), |call| {
        seen.borrow_mut().push((
            call.url.to_string(),
            call.body.to_vec(),
            call.timeout_connect_ms,
            call.timeout_write_ms,
            call.timeout_read_ms,
        ));
        ok_reply()
    });
    let calls = seen.into_inner();
    assert_eq!(calls.len(), 1);
    let (url, body, connect, write, read) = calls[0].clone();
    assert_eq!(url, "http://localhost:3100/api/prom/push");
    assert_eq!((connect, write, read), (Some(3000), Some(60000), None));
    assert!(matches!(sent, Ok(n) if n == body.len() && n > 0));
    // The body is a Snappy block of the encoded request.
    let decoded = snap::Decoder::new().decompress_vec(&body).unwrap();
    assert_eq!(decoded[0], 0x0a);
    let labels = b"{job=\"x\",one=\"1\",two=\"2\"}";
    assert_eq!(decoded[2], 0x0a);
    assert_eq!(decoded[3] as usize, labels.len());
    assert_eq!(&decoded[4..4 + labels.len()], labels);
    assert_eq!(decoded[1] as usize, decoded.len() - 2);
    let text = String::from_utf8_lossy(&decoded).to_string();
    let first = text.find("message1").unwrap();
    let second = text.find("message2").unwrap();
    assert!(first < second);
    assert!(!text.contains("idle"));
    // The queues are left empty, so the next scrape has nothing to send.
    assert_eq!(log.map(|m| m.len()), vec![0, 0]);
    assert!(matches!(process.send(drain_streams(&mut log), |_call| ok_reply()), Ok(0)));
}

#[test]
fn send_body_decompresses_to_the_request_bytes() {
    let mut log = Log::new();
    {
        let metric = log.get(LogMetricConfBuilder::new().add_labels(&["a"]).build()).get(&["1"]);
        metric.push("hi".to_string());
    }
    let mut process = LokiScrapeProcess::new("u".to_string(), None, None, None);
    let body = RefCell::new(Vec::new());
    let sent = process.send(drain_streams(&mut log), |call| {
        body.borrow_mut().extend_from_slice(call.body);
        ok_reply()
    });
    assert!(sent.is_ok());
    let decoded = snap::Decoder::new().decompress_vec(&body.into_inner()).unwrap();
    // The same stream, with the time that the push took, written by hand.
    let time = decoded[15..decoded.len() - 4].to_vec();
    let mut expected: Vec<u8> = vec![0x0a, (9 + 2 + 2 + time.len() + 4) as u8];
    expected.extend_from_slice(&[0x0a, 0x07]);
    expected.extend_from_slice(b"{a=\"1\"}");
    expected.extend_from_slice(&[0x12, (2 + time.len() + 4) as u8, 0x0a, time.len() as u8]);
    expected.extend_from_slice(&time);
    expected.extend_from_slice(&[0x12, 0x02, b'h', b'i']);
    assert_eq!(decoded, expected);
    assert_eq!(time[0], 0x08);
}

#[test]
fn send_reports_an_error_status() {
    let mut log = Log::new();
    log.get(LogMetricConfBuilder::new().add_labels(&["a"]).build()).get(&["1"]).push("hi".to_string());
    let mut process = LokiScrapeProcess::new("u".to_string(), None, None, None);
    let sent = process.send(drain_streams(&mut log), |_call| HttpReply {
        error: true,
        status: 500,
        body: "boom".to_string(),
        synthetic_error: None,
    });
    assert!(matches!(sent, Err(ScrapeError::Status { status: 500, ref body }) if body == "boom"));
    // What was drained for the failed push is gone.
    assert_eq!(log.map(|m| m.len()), vec![0]);
}

#[test]
fn conclude_classifies_the_answer() {
    assert!(matches!(conclude(17, ok_reply()), Ok(17)));
    let refused = HttpReply { error: true, status: 400, body: "bad".to_string(), synthetic_error: None };
    assert!(matches!(conclude(17, refused), Err(ScrapeError::Status { status: 400, ref body }) if body == "bad"));
    let failed = HttpReply {
        error: false,
        status: 200,
        body: String::new(),
        synthetic_error: Some(SyntheticError {
            status_text: "Connection Failed".to_string(),
            status: 500,
            body_text: "Connection Failed: refused".to_string(),
        }),
    };
    assert!(matches!(
        conclude(17, failed),
        Err(ScrapeError::Transport { ref status_text, status: 500, ref body })
            if status_text == "Connection Failed" && body == "Connection Failed: refused"
    ));
    // An error status wins over a transport failure.
    let both = HttpReply {
        error: true,
        status: 500,
        body: "b".to_string(),
        synthetic_error: Some(SyntheticError {
            status_text: "Network Error".to_string(),
            status: 500,
            body_text: "t".to_string(),
        }),
    };
    assert!(matches!(conclude(1, both), Err(ScrapeError::Status { status: 500, .. })));
}

struct WireTime {
    seconds: i64,
    nanos: i32,
}

impl MessageWrite for WireTime {
    fn get_size(&self) -> usize {
        0 + if self.seconds == 0i64 { 0 } else { 1 + sizeof_varint(self.seconds as u64) }
            + if self.nanos == 0i32 { 0 } else { 1 + sizeof_varint(self.nanos as u64) }
    }

    fn write_message<W: WriterBackend>(&self, w: &mut Writer<W>) -> quick_protobuf::Result<()> {
        if self.seconds != 0i64 {
            w.write_with_tag(8, |w| w.write_int64(self.seconds))?;
        }
        if self.nanos != 0i32 {
            w.write_with_tag(16, |w| w.write_int32(self.nanos))?;
        }
        Ok(())
    }
}

struct WireEntry {
    ts: Option<WireTime>,
    line: String,
}

impl MessageWrite for WireEntry {
    fn get_size(&self) -> usize {
        0 + self.ts.as_ref().map_or(0, |m| 1 + sizeof_len(m.get_size()))
            + if self.line == "" { 0 } else { 1 + sizeof_len(self.line.len()) }
    }

    fn write_message<W: WriterBackend>(&self, w: &mut Writer<W>) -> quick_protobuf::Result<()> {
        if let Some(ref s) = self.ts {
            w.write_with_tag(10, |w| w.write_message(s))?;
        }
        if self.line != "" {
            w.write_with_tag(18, |w| w.write_string(&self.line))?;
        }
        Ok(())
    }
}

struct WireStream {
    labels: String,
    entries: Vec<WireEntry>,
}

impl MessageWrite for WireStream {
    fn get_size(&self) -> usize {
        0 + if self.labels == "" { 0 } else { 1 + sizeof_len(self.labels.len()) }
            + self.entries.iter().map(|s| 1 + sizeof_len(s.get_size())).sum::<usize>()
    }

    fn write_message<W: WriterBackend>(&self, w: &mut Writer<W>) -> quick_protobuf::Result<()> {
        if self.labels != "" {
            w.write_with_tag(10, |w| w.write_string(&self.labels))?;
        }
        for s in &self.entries {
            w.write_with_tag(18, |w| w.write_message(s))?;
        }
        Ok(())
    }
}

struct WireRequest {
    streams: Vec<WireStream>,
}

impl MessageWrite for WireRequest {
    fn get_size(&self) -> usize {
        0 + self.streams.iter().map(|s| 1 + sizeof_len(s.get_size())).sum::<usize>()
    }

    fn write_message<W: WriterBackend>(&self, w: &mut Writer<W>) -> quick_protobuf::Result<()> {
        for s in &self.streams {
            w.write_with_tag(10, |w| w.write_message(s))?;
        }
        Ok(())
    }
}

fn sample(seconds: i64, nanos: i32, lines: &[&str], labels: &str) -> (Stream, WireStream) {
    let ours = Stream {
        labels: labels.to_string(),
        entries: lines
            .iter()
            .map(|l| Entry { ts: Some(Timestamp { seconds, nanos }), line: l.to_string() })
            .collect(),
    };
    let theirs = WireStream {
        labels: labels.to_string(),
        entries: lines
            .iter()
            .map(|l| WireEntry { ts: Some(WireTime { seconds, nanos }), line: l.to_string() })
            .collect(),
    };
    (ours, theirs)
}

#[test]
fn request_bytes_are_what_a_message_writer_writes() {
    let long = "long ".repeat(4000);
    let cases = vec![
        sample(1_600_000_000, 123_456_789, &["first", "", "third"], "{job=\"x\",a=\"1\"}"),
        sample(0, 0, &["only"], ""),
        sample(-5, -7, &[], "{}"),
        sample(i64::MAX, i32::MAX, &[long.as_str(), "é ü 日本"], "{host=\"h\"}"),
        sample(i64::MIN, i32::MIN, &["x"], "{z=\"\"}"),
    ];
    let mut ours = Vec::new();
    let mut theirs = Vec::new();
    for (a, b) in cases {
        ours.push(a);
        theirs.push(b);
    }
    let mut written = Vec::new();
    PushRequest::from(ours).write_message(&mut written).ok().unwrap();
    let mut expected = Vec::new();
    WireRequest { streams: theirs }.write_message(&mut Writer::new(&mut expected)).unwrap();
    assert_eq!(written, expected);
    assert!(written.len() > 20000);
}

#[test]
fn errors_read_as_text() {
    let refused = ScrapeError::Status { status: 500, body: "boom".to_string() };
    assert_eq!(refused.message(), "Send request error with status: 500, and result: 'boom'");
    let failed = ScrapeError::Transport {
        status_text: "Connection Failed".to_string(),
        status: 500,
        body: "Connection Failed: refused".to_string(),
    };
    assert_eq!(
        failed.message(),
        "Send request error with status: 'Connection Failed'(500), 'Connection Failed: refused'"
    );
    let unwritten = ScrapeError::SerializeError(quick_protobuf::Error::Varint);
    assert_eq!(unwritten.message(), "Serialization error as 'Varint'");
    let too_big = ScrapeError::CompressError(snap::Error::TooBig { given: 5, max: 4 });
    assert_eq!(too_big.message(), "Snappy compress error");
}

#[test]
fn status_is_written_in_decimal() {
    for status in [0u16, 7, 9, 10, 99, 100, 404, 1000, 9999, 10000, 65535] {
        let mut text = "status ".to_string();
        logpush::errors::push_decimal(&mut text, status);
        assert_eq!(text, format!("status {}", status));
        let message = ScrapeError::Status { status, body: String::new() }.message();
        assert_eq!(message, format!("Send request error with status: {}, and result: ''", status));
    }
}

#[test]
fn send_leaves_out_streams_without_entries() {
    let mut process = LokiScrapeProcess::new("u".to_string(), None, None, None);
    let body = RefCell::new(Vec::new());
    let items = vec![stream("{a=\"0\"}", &[]), stream("{a=\"1\"}", &["hi"]), stream("{a=\"2\"}", &[])];
    let sent = process.send(items, |call| {
        body.borrow_mut().extend_from_slice(call.body);
        ok_reply()
    });
    assert!(sent.is_ok());
    let decoded = snap::Decoder::new().decompress_vec(&body.into_inner()).unwrap();
    let mut expected = Vec::new();
    PushRequest::from(vec![stream("{a=\"1\"}", &["hi"])]).write_message(&mut expected).ok().unwrap();
    assert_eq!(decoded, expected);
}

#[test]
fn end_to_end_bytes_of_two_messages() {
    let mut log = Log::new();
    {
        let metric = log.get(LogMetricConfBuilder::new().add_labels(&["one", "two"]).build()).get(&["1", "2"]);
        let time = EpochTime::new(1, 0).unwrap();
        metric.push_message(LogMessage { time, message: "message1".to_string() });
        metric.push_message(LogMessage { time, message: "message2".to_string() });
    }
    let mut process = LokiScrapeProcess::new("u".to_string(), None, None, None);
    let body = RefCell::new(Vec::new());
    let sent = process.send(drain_streams(&mut log), |call| {
        body.borrow_mut().extend_from_slice(call.body);
        ok_reply()
    });
    let body = body.into_inner();
    assert!(matches!(sent, Ok(n) if n == body.len()));
    let decoded = snap::Decoder::new().decompress_vec(&body).unwrap();
    let mut expected: Vec<u8> = vec![0x0a, 51, 0x0a, 17];
    expected.extend_from_slice(b"{one=\"1\",two=\"2\"}");
    for line in ["message1", "message2"] {
        expected.extend_from_slice(&[0x12, 14, 0x0a, 2, 0x08, 1, 0x12, 8]);
        expected.extend_from_slice(line.as_bytes());
    }
    assert_eq!(decoded, expected);
    let (_, theirs) = sample(1, 0, &["message1", "message2"], "{one=\"1\",two=\"2\"}");
    let mut written = Vec::new();
    WireRequest { streams: vec![theirs] }.write_message(&mut Writer::new(&mut written)).unwrap();
    assert_eq!(decoded, written);
    // What the store gets is what the compressor of the snap crate makes of it.
    assert_eq!(body, snap::Encoder::new().compress_vec(&decoded).unwrap());
}
