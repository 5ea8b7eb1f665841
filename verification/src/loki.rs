//! Streams of drained messages and the label string that names a stream.
use crate::clock::{MAX_EPOCH_SECS, NANOS_PER_SEC};
use crate::log::{LogMetric, LogMetricView};
use crate::fingerprint::strings_view;
use crate::models::{pairs_view, LogMessage, LogMetricConf, LogMetricConfView};
use chrono::{DateTime, Utc};
use vstd::prelude::*;
use vstd::string::StringExecFns;

pub mod logproto;
pub mod scrape;

verus! {

/// The pattern in which the time of an entry is written out.
pub const FORMAT: &'static str = "%Y-%m-%dT%H:%M:%S%.6f%:z";

/// One label as it stands in a label string: the name, an equals sign and
/// the value in double quotes.
pub open spec fn label_pair(name: Seq<char>, value: Seq<char>) -> Seq<char> {
    name + seq!['=', '"'] + value + seq!['"']
}

/// The strings of `parts` with a comma between each two neighbours.
pub open spec fn joined(parts: Seq<Seq<char>>) -> Seq<char>
    decreases parts.len(),
{
    if parts.len() == 0 {
        Seq::empty()
    } else if parts.len() == 1 {
        parts[0]
    } else {
        joined(parts.drop_last()) + seq![','] + parts.last()
    }
}

/// The labels of a stream: the constant labels of the configuration in
/// their order, then each label name of the schema with the value at its
/// position.
pub open spec fn label_parts(config: LogMetricConfView, values: Seq<Seq<char>>) -> Seq<Seq<char>> {
    Seq::new(
        config.const_labels.len(),
        |i: int| label_pair(config.const_labels[i].0, config.const_labels[i].1),
    ) + Seq::new(config.label_names.len(), |i: int| label_pair(config.label_names[i], values[i]))
}

/// The label string of a stream: its labels, comma-separated, in braces.
pub open spec fn labels_string(config: LogMetricConfView, values: Seq<Seq<char>>) -> Seq<char> {
    seq!['{'] + joined(label_parts(config, values)) + seq!['}']
}

/// What one more part adds to a comma-separated string.
pub open spec fn separated(first: bool, part: Seq<char>) -> Seq<char> {
    if first {
        part
    } else {
        seq![','] + part
    }
}

/// Joining one part more appends the part, behind a comma unless it is
/// the first.
pub proof fn lemma_joined_push(parts: Seq<Seq<char>>, part: Seq<char>)
    ensures
        joined(parts.push(part)) == joined(parts) + separated(parts.len() == 0, part),
{
    let grown = parts.push(part);
    assert(grown.drop_last() =~= parts);
    assert(grown.last() == part);
    if parts.len() == 0 {
        assert(joined(grown) =~= joined(parts) + part);
    } else {
        assert(joined(grown) =~= joined(parts) + (seq![','] + part));
    }
}

/// Appends one label to a label string under construction.
fn push_label(labels: &mut String, first: bool, name: &str, value: &str)
    ensures
        final(labels)@ == old(labels)@ + separated(first, label_pair(name@, value@)),
{
    proof {
        reveal_strlit(",");
        reveal_strlit("=\"");
        reveal_strlit("\"");
    }
    if !first {
        labels.append(",");
    }
    labels.append(name);
    labels.append("=\"");
    labels.append(value);
    labels.append("\"");
    proof {
        assert(",".view() =~= seq![',']);
        assert("=\"".view() =~= seq!['=', '"']);
        assert("\"".view() =~= seq!['"']);
        assert(labels@ =~= old(labels)@ + separated(first, label_pair(name@, value@)));
    }
}

/// The label string of the stream of a queue with label values `values`
/// under `config`.
pub fn get_labels_string(config: &LogMetricConf, values: &Vec<String>) -> (labels: String)
    requires
        config@.label_names.len() <= values@.len(),
    ensures
        labels@ == labels_string(config@, strings_view(values@)),
{
    let names = config.get_label_names();
    let const_labels = config.get_const_labels();
    let ghost parts = label_parts(config@, strings_view(values@));
    let ghost consts = config@.const_labels.len() as int;
    let mut labels = String::new();
    labels.append("{");
    proof {
        reveal_strlit("{");
        assert("{".view() =~= seq!['{']);
        assert(labels@ =~= seq!['{'] + joined(parts.take(0)));
    }
    let mut i: usize = 0;
    while i < const_labels.len()
        invariant
            i <= const_labels.len(),
            consts == const_labels@.len(),
            pairs_view(const_labels@) == config@.const_labels,
            parts == label_parts(config@, strings_view(values@)),
            labels@ == seq!['{'] + joined(parts.take(i as int)),
        decreases const_labels.len() - i,
    {
        let ghost before = labels@;
        push_label(&mut labels, i == 0, const_labels[i][0].as_str(), const_labels[i][1].as_str());
        proof {
            let part = label_pair(const_labels@[i as int]@[0]@, const_labels@[i as int]@[1]@);
            assert(config@.const_labels[i as int] == (
                const_labels@[i as int]@[0]@,
                const_labels@[i as int]@[1]@,
            ));
            assert(parts[i as int] == part);
            assert(parts.take(i + 1) =~= parts.take(i as int).push(part));
            lemma_joined_push(parts.take(i as int), part);
            assert(labels@ =~= seq!['{'] + joined(parts.take(i + 1)));
        }
        i += 1;
    }
    let mut j: usize = 0;
    while j < names.len()
        invariant
            j <= names.len(),
            names@.len() <= values@.len(),
            consts == const_labels@.len(),
            consts == config@.const_labels.len(),
            strings_view(names@) == config@.label_names,
            parts == label_parts(config@, strings_view(values@)),
            labels@ == seq!['{'] + joined(parts.take(consts + j)),
        decreases names.len() - j,
    {
        let first = const_labels.len() == 0 && j == 0;
        push_label(&mut labels, first, names[j].as_str(), values[j].as_str());
        proof {
            let part = label_pair(names@[j as int]@, values@[j as int]@);
            assert(config@.label_names[j as int] == names@[j as int]@);
            assert(parts[consts + j] == part);
            assert(parts.take(consts + j + 1) =~= parts.take(consts + j).push(part));
            lemma_joined_push(parts.take(consts + j), part);
            assert(labels@ =~= seq!['{'] + joined(parts.take(consts + j + 1)));
        }
        j += 1;
    }
    labels.append("}");
    proof {
        reveal_strlit("}");
        assert("}".view() =~= seq!['}']);
        assert(parts.take(consts + j) =~= parts);
        assert(labels@ =~= labels_string(config@, strings_view(values@)));
    }
    labels
}

/// The text that the chrono crate writes for the time `secs` seconds and
/// `nanos` nanoseconds after the Unix epoch, in UTC, under `pattern`.
pub uninterp spec fn utc_time_text(secs: u64, nanos: u32, pattern: Seq<char>) -> Seq<char>;

/// `DateTime::<Utc>::from_timestamp`, then `format` and `to_string`. The
/// crate makes a time of every reading up to the year 262142 with less
/// than a second of nanoseconds, and writes it out under every pattern
/// that it knows each item of, as it does of `FORMAT`.
#[verifier::external_body]
fn format_utc(secs: u64, nanos: u32, pattern: &str) -> (text: String)
    requires
        secs <= MAX_EPOCH_SECS,
        nanos < NANOS_PER_SEC,
        pattern@ == FORMAT@,
    ensures
        text@ == utc_time_text(secs, nanos, pattern@),
{
    DateTime::<Utc>::from_timestamp(secs as i64, nanos).unwrap().format(pattern).to_string()
}

/// One line of text with its time written out.
#[derive(Debug)]
pub struct LokiEntry {
    pub ts: String,
    pub line: String,
}

/// The entries of one combination of labels, with their times written out.
#[derive(Debug)]
pub struct LokiStream {
    pub labels: String,
    pub entries: Vec<LokiEntry>,
}

/// A batch of streams with their times written out.
#[derive(Debug)]
pub struct LokiModel {
    pub streams: Vec<LokiStream>,
}

/// What an entry holds, as mathematical values.
pub struct LokiEntryView {
    pub ts: Seq<char>,
    pub line: Seq<char>,
}

/// What a stream holds, as mathematical values.
pub struct LokiStreamView {
    pub labels: Seq<char>,
    pub entries: Seq<LokiEntryView>,
}

impl View for LokiEntry {
    type V = LokiEntryView;

    open spec fn view(&self) -> LokiEntryView {
        LokiEntryView { ts: self.ts@, line: self.line@ }
    }
}

/// The views of a sequence of entries.
pub open spec fn loki_entries_view(entries: Seq<LokiEntry>) -> Seq<LokiEntryView> {
    Seq::new(entries.len(), |i: int| entries[i]@)
}

impl View for LokiStream {
    type V = LokiStreamView;

    open spec fn view(&self) -> LokiStreamView {
        LokiStreamView { labels: self.labels@, entries: loki_entries_view(self.entries@) }
    }
}

/// The entry that a message becomes.
pub open spec fn loki_entry_of(message: LogMessage) -> LokiEntryView {
    LokiEntryView {
        ts: utc_time_text(message.time.spec_secs(), message.time.spec_subsec_nanos(), FORMAT@),
        line: message.message@,
    }
}

/// The entries that the messages of a queue become, oldest first.
pub open spec fn loki_entries_of(messages: Seq<LogMessage>) -> Seq<LokiEntryView> {
    Seq::new(messages.len(), |i: int| loki_entry_of(messages[i]))
}

/// The stream that a queue becomes when it is drained.
pub open spec fn loki_stream_of(queue: LogMetricView) -> LokiStreamView {
    LokiStreamView {
        labels: labels_string(queue.config, queue.labels),
        entries: loki_entries_of(queue.messages),
    }
}

impl LokiEntry {
    /// The entry of a message: its text with its time written out.
    pub fn from(message: LogMessage) -> (entry: LokiEntry)
        ensures
            entry@ == loki_entry_of(message),
            entry.line == message.message,
    {
        LokiEntry {
            ts: format_utc(message.time.secs(), message.time.subsec_nanos(), FORMAT),
            line: message.message,
        }
    }
}

impl LokiStream {
    pub fn len(&self) -> (len: usize)
        ensures
            len == self@.entries.len(),
    {
        self.entries.len()
    }

    /// Drains `metric` into a stream: every message becomes an entry, oldest
    /// first, under the label string of the queue. The queue is left empty.
    pub fn from(metric: &mut LogMetric) -> (stream: LokiStream)
        requires
            old(metric)@.wf(),
        ensures
            stream@ == loki_stream_of(old(metric)@),
            final(metric)@ == (LogMetricView { messages: Seq::empty(), ..old(metric)@ }),
    {
        let labels = get_labels_string(metric.config(), metric.labels());
        let mut entries: Vec<LokiEntry> = Vec::with_capacity(metric.len());
        while metric.len() > 0
            invariant
                metric@.labels == old(metric)@.labels,
                metric@.config == old(metric)@.config,
                metric@.capacity == old(metric)@.capacity,
                entries@.len() + metric@.messages.len() == old(metric)@.messages.len(),
                loki_entries_view(entries@) == loki_entries_of(old(metric)@.messages).take(
                    entries@.len() as int,
                ),
                metric@.messages == old(metric)@.messages.skip(entries@.len() as int),
            decreases metric@.messages.len(),
        {
            let ghost done = entries@;
            let ghost left = metric@.messages;
            if let Some(message) = metric.pop() {
                entries.push(LokiEntry::from(message));
                proof {
                    let all = old(metric)@.messages;
                    assert(left.first() == all[done.len() as int]);
                    assert(metric@.messages =~= all.skip(done.len() as int + 1));
                    assert(loki_entries_view(entries@) =~= loki_entries_of(all).take(
                        done.len() as int + 1,
                    ));
                }
            }
        }
        proof {
            assert(loki_entries_of(old(metric)@.messages).take(entries@.len() as int)
                =~= loki_entries_of(old(metric)@.messages));
            assert(metric@.messages =~= Seq::empty());
        }
        LokiStream { labels, entries }
    }
}

impl From<Vec<LokiStream>> for LokiModel {
    fn from(streams: Vec<LokiStream>) -> (model: Self) {
        LokiModel { streams }
    }
}

impl vstd::std_specs::convert::FromSpecImpl<Vec<LokiStream>> for LokiModel {
    open spec fn obeys_from_spec() -> bool {
        true
    }

    open spec fn from_spec(streams: Vec<LokiStream>) -> Self {
        LokiModel { streams }
    }
}

} // verus!
