//! Queue configurations and the messages that queues hold.
use crate::clock::EpochTime;
use crate::fingerprint::{
    fingerprint, fingerprint_from, hash_start, hash_str, hash_strings, strings_view, strs_view,
};
use vstd::prelude::*;

verus! {

/// The capacity of a queue whose configuration names none.
pub const DEFAULT_CAPACITY: usize = 1024;

/// The constant labels of a configuration, as pairs of name and value.
pub open spec fn pairs_view(labels: Seq<[String; 2]>) -> Seq<(Seq<char>, Seq<char>)> {
    Seq::new(labels.len(), |i: int| (labels[i]@[0]@, labels[i]@[1]@))
}

/// The names of a sequence of constant labels.
pub open spec fn pair_names(labels: Seq<(Seq<char>, Seq<char>)>) -> Seq<Seq<char>> {
    Seq::new(labels.len(), |i: int| labels[i].0)
}

/// The identity of a configuration: the fingerprint of the names of its
/// constant labels, in order, followed by its label names, in order.
pub open spec fn config_fingerprint(
    const_labels: Seq<(Seq<char>, Seq<char>)>,
    label_names: Seq<Seq<char>>,
) -> u64 {
    fingerprint_from(fingerprint(pair_names(const_labels)), label_names)
}

/// Collects the parts of a configuration.
#[derive(Clone)]
pub struct LogMetricConfBuilder {
    const_labels: Vec<[String; 2]>,
    label_names: Vec<String>,
    default_capacity: usize,
}

impl LogMetricConfBuilder {
    /// The constant labels added so far, in the order of their addition.
    pub closed spec fn const_labels(&self) -> Seq<(Seq<char>, Seq<char>)> {
        pairs_view(self.const_labels@)
    }

    /// The label names added so far, in the order of their addition.
    pub closed spec fn label_names(&self) -> Seq<Seq<char>> {
        strings_view(self.label_names@)
    }

    /// The capacity that queues of the configuration will start with.
    pub closed spec fn default_capacity(&self) -> usize {
        self.default_capacity
    }

    /// A builder with no labels and the default capacity.
    pub fn new() -> (builder: Self)
        ensures
            builder.const_labels() == Seq::<(Seq<char>, Seq<char>)>::empty(),
            builder.label_names() == Seq::<Seq<char>>::empty(),
            builder.default_capacity() == DEFAULT_CAPACITY,
    {
        LogMetricConfBuilder {
            label_names: Vec::new(),
            default_capacity: DEFAULT_CAPACITY,
            const_labels: Vec::new(),
        }
    }

    /// Sets the capacity that queues start with; 0 stands for no bound.
    pub fn set_default_capacity(self, capacity: usize) -> (builder: Self)
        ensures
            builder.default_capacity() == capacity,
            builder.const_labels() == self.const_labels(),
            builder.label_names() == self.label_names(),
    {
        let mut builder = self;
        builder.default_capacity = capacity;
        builder
    }

    /// Appends one label name to the schema.
    pub fn add_label(self, label_name: &str) -> (builder: Self)
        ensures
            builder.label_names() == self.label_names().push(label_name@),
            builder.const_labels() == self.const_labels(),
            builder.default_capacity() == self.default_capacity(),
    {
        let mut builder = self;
        builder.label_names.push(label_name.to_owned());
        builder
    }

    /// Appends the given label names, in order, to the schema.
    pub fn add_labels(self, label_names: &[&str]) -> (builder: Self)
        ensures
            builder.label_names() == self.label_names() + strs_view(label_names@),
            builder.const_labels() == self.const_labels(),
            builder.default_capacity() == self.default_capacity(),
    {
        let mut builder = self;
        let mut i: usize = 0;
        while i < label_names.len()
            invariant
                i <= label_names.len(),
                builder.const_labels == self.const_labels,
                builder.default_capacity == self.default_capacity,
                strings_view(builder.label_names@) == strings_view(self.label_names@)
                    + strs_view(label_names@).take(i as int),
            decreases label_names.len() - i,
        {
            let ghost held = strings_view(builder.label_names@);
            builder.label_names.push(label_names[i].to_owned());
            proof {
                assert(strings_view(builder.label_names@) =~= held.push(label_names@[i as int]@));
                assert(strs_view(label_names@).take(i + 1) =~= strs_view(label_names@).take(
                    i as int,
                ).push(label_names@[i as int]@));
            }
            i += 1;
        }
        proof {
            assert(strs_view(label_names@).take(i as int) == strs_view(label_names@));
        }
        builder
    }

    /// Appends one constant label.
    pub fn add_const_label(self, name: &str, value: &str) -> (builder: Self)
        ensures
            builder.const_labels() == self.const_labels().push((name@, value@)),
            builder.label_names() == self.label_names(),
            builder.default_capacity() == self.default_capacity(),
    {
        let mut builder = self;
        builder.const_labels.push([name.to_owned(), value.to_owned()]);
        builder
    }

    /// The configuration of the parts collected, with its identity computed.
    pub fn build(self) -> (conf: LogMetricConf)
        ensures
            conf.wf(),
            conf@.const_labels == self.const_labels(),
            conf@.label_names == self.label_names(),
            conf@.default_capacity == self.default_capacity(),
    {
        let key = self.create_key();
        LogMetricConf {
            key,
            default_capacity: self.default_capacity,
            const_labels: self.const_labels,
            label_names: self.label_names,
        }
    }

    fn create_key(&self) -> (key: u64)
        ensures
            key == config_fingerprint(self.const_labels(), self.label_names()),
    {
        let mut hash: u64 = hash_start();
        let ghost names = pair_names(self.const_labels());
        let mut i: usize = 0;
        while i < self.const_labels.len()
            invariant
                i <= self.const_labels.len(),
                names == pair_names(self.const_labels()),
                hash == fingerprint(names.take(i as int)),
            decreases self.const_labels.len() - i,
        {
            proof {
                let next = names.take(i + 1);
                assert(next.drop_last() == names.take(i as int));
                assert(next.last() == self.const_labels@[i as int]@[0]@);
            }
            hash = hash_str(hash, self.const_labels[i][0].as_str());
            i += 1;
        }
        proof {
            assert(names.take(i as int) == names);
        }
        hash_strings(hash, &self.label_names)
    }
}

impl Default for LogMetricConfBuilder {
    fn default() -> (builder: Self)
        ensures
            builder.const_labels() == Seq::<(Seq<char>, Seq<char>)>::empty(),
            builder.label_names() == Seq::<Seq<char>>::empty(),
            builder.default_capacity() == DEFAULT_CAPACITY,
    {
        LogMetricConfBuilder::new()
    }
}

/// What a configuration holds, as mathematical values.
pub struct LogMetricConfView {
    /// The constant labels, as pairs of name and value.
    pub const_labels: Seq<(Seq<char>, Seq<char>)>,
    /// The label names of the schema.
    pub label_names: Seq<Seq<char>>,
    /// The capacity that a queue of this configuration starts with.
    pub default_capacity: usize,
    /// The identity under which the configuration is filed.
    pub key: u64,
}

/// A label schema with its constant labels and the capacity of its queues.
pub struct LogMetricConf {
    const_labels: Vec<[String; 2]>,
    label_names: Vec<String>,
    default_capacity: usize,
    key: u64,
}

impl View for LogMetricConf {
    type V = LogMetricConfView;

    closed spec fn view(&self) -> LogMetricConfView {
        LogMetricConfView {
            const_labels: pairs_view(self.const_labels@),
            label_names: strings_view(self.label_names@),
            default_capacity: self.default_capacity,
            key: self.key,
        }
    }
}

impl LogMetricConf {
    /// The key of a configuration is the fingerprint of its names.
    pub open spec fn wf(&self) -> bool {
        self@.key == config_fingerprint(self@.const_labels, self@.label_names)
    }

    pub fn get_const_labels(&self) -> (labels: &Vec<[String; 2]>)
        ensures
            pairs_view(labels@) == self@.const_labels,
    {
        &self.const_labels
    }

    pub fn get_label_names(&self) -> (names: &Vec<String>)
        ensures
            strings_view(names@) == self@.label_names,
    {
        &self.label_names
    }

    pub fn get_default_capacity(&self) -> (capacity: usize)
        ensures
            capacity == self@.default_capacity,
    {
        self.default_capacity
    }

    pub fn set_default_capacity(&mut self, capacity: usize)
        ensures
            final(self)@ == (LogMetricConfView { default_capacity: capacity, ..old(self)@ }),
    {
        self.default_capacity = capacity;
    }

    pub fn get_key(&self) -> (key: u64)
        ensures
            key == self@.key,
    {
        self.key
    }
}

/// One line of text with the time at which it was taken in.
pub struct LogMessage {
    pub time: EpochTime,
    pub message: String,
}

impl LogMessage {
    /// The message `msg`, stamped with the current reading of the clock.
    pub fn from(msg: String) -> (message: LogMessage)
        ensures
            message.message == msg,
    {
        LogMessage { time: EpochTime::now(), message: msg }
    }
}

/// Two configurations with the same constant-label names and the same label
/// names have the same key, whatever the values of their constant labels
/// and whatever their capacities.
pub proof fn lemma_same_names_same_key(a: LogMetricConf, b: LogMetricConf)
    requires
        a.wf(),
        b.wf(),
        pair_names(a@.const_labels) == pair_names(b@.const_labels),
        a@.label_names == b@.label_names,
    ensures
        a@.key == b@.key,
{
}

} // verus!
