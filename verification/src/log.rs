//! Bounded queues of messages, the containers that hold one queue per
//! combination of label values, and the registry that holds one container
//! per configuration.
use crate::fingerprint::{fingerprint, labels_fingerprint, strings_view, strs_view};
use crate::models::{
    lemma_same_names_same_key, pair_names, LogMessage, LogMetricConf, LogMetricConfView,
};
use std::collections::HashMap;
use std::collections::VecDeque;
use std::sync::Arc;
use vstd::prelude::*;

verus! {

broadcast use {vstd::std_specs::hash::group_hash_axioms, vstd::function::group_function_axioms};

/// What a queue holds, as mathematical values.
pub struct LogMetricView {
    /// The label values that the queue stands for.
    pub labels: Seq<Seq<char>>,
    /// The messages waiting, oldest first.
    pub messages: Seq<LogMessage>,
    /// The bound on the number of waiting messages; 0 stands for no bound.
    pub capacity: usize,
    /// The configuration that the queue was made under.
    pub config: LogMetricConfView,
}

impl LogMetricView {
    /// A queue is full when it has a bound and holds that many messages or,
    /// after its bound was lowered, more.
    pub open spec fn is_full(self) -> bool {
        self.capacity > 0 && self.messages.len() >= self.capacity
    }

    /// The queue after an attempt to push `message`: unchanged when full,
    /// else with `message` behind all others.
    pub open spec fn pushed(self, message: LogMessage) -> LogMetricView {
        if self.is_full() {
            self
        } else {
            LogMetricView { messages: self.messages.push(message), ..self }
        }
    }

    /// The queue after attempts to push each of `messages`, in order.
    pub open spec fn pushed_all(self, messages: Seq<LogMessage>) -> LogMetricView
        decreases messages.len(),
    {
        if messages.len() == 0 {
            self
        } else {
            self.pushed_all(messages.drop_last()).pushed(messages.last())
        }
    }

    /// The queue after its oldest message, if any, has been taken out.
    pub open spec fn popped(self) -> LogMetricView {
        if self.messages.len() == 0 {
            self
        } else {
            LogMetricView { messages: self.messages.drop_first(), ..self }
        }
    }

    /// The messages that come out when the queue is popped until it is empty.
    pub open spec fn drained(self) -> Seq<LogMessage>
        decreases self.messages.len(),
    {
        if self.messages.len() == 0 {
            Seq::empty()
        } else {
            seq![self.messages.first()] + self.popped().drained()
        }
    }

    /// A queue has one label value for each label name of its configuration.
    pub open spec fn wf(self) -> bool {
        self.labels.len() == self.config.label_names.len()
    }
}

/// A first-in first-out queue of messages for one combination of label values.
pub struct LogMetric {
    _labels: Vec<String>,
    _messages: VecDeque<LogMessage>,
    _config: Arc<LogMetricConf>,
    _capacity: usize,
}

impl View for LogMetric {
    type V = LogMetricView;

    closed spec fn view(&self) -> LogMetricView {
        LogMetricView {
            labels: strings_view(self._labels@),
            messages: self._messages@,
            capacity: self._capacity,
            config: self._config@,
        }
    }
}

impl LogMetric {
    /// An empty queue for `labels` under `config`, bounded by the default
    /// capacity of `config`.
    pub fn with_labels(config: Arc<LogMetricConf>, labels: &[&str]) -> (metric: Self)
        ensures
            metric@ == (LogMetricView {
                labels: strs_view(labels@),
                messages: Seq::empty(),
                capacity: config@.default_capacity,
                config: config@,
            }),
    {
        let default_capacity = config.get_default_capacity();
        let mut owned: Vec<String> = Vec::new();
        let mut i: usize = 0;
        while i < labels.len()
            invariant
                i <= labels.len(),
                strings_view(owned@) == strs_view(labels@).take(i as int),
            decreases labels.len() - i,
        {
            let ghost held = strings_view(owned@);
            owned.push(labels[i].to_owned());
            proof {
                assert(strings_view(owned@) =~= held.push(labels@[i as int]@));
                assert(strs_view(labels@).take(i + 1) =~= strs_view(labels@).take(i as int).push(
                    labels@[i as int]@,
                ));
            }
            i += 1;
        }
        proof {
            assert(strs_view(labels@).take(i as int) == strs_view(labels@));
        }
        let messages: VecDeque<LogMessage> = if default_capacity == 0 {
            VecDeque::new()
        } else {
            VecDeque::with_capacity(default_capacity)
        };
        LogMetric {
            _labels: owned,
            _messages: messages,
            _capacity: default_capacity,
            _config: config,
        }
    }

    /// Replaces the bound. Messages already waiting stay, even beyond it;
    /// a queue that holds more than its new bound takes no push until it
    /// was popped below the bound.
    pub fn set_capacity(&mut self, capacity: usize)
        ensures
            final(self)@ == (LogMetricView { capacity, ..old(self)@ }),
    {
        self._capacity = capacity;
    }

    pub fn config(&self) -> (config: &Arc<LogMetricConf>)
        ensures
            config@ == self@.config,
    {
        &self._config
    }

    pub fn labels(&self) -> (labels: &Vec<String>)
        ensures
            strings_view(labels@) == self@.labels,
    {
        &self._labels
    }

    pub fn len(&self) -> (len: usize)
        ensures
            len == self@.messages.len(),
    {
        self._messages.len()
    }

    /// Takes `message` in behind all others, with the time that it carries,
    /// unless the queue is full.
    pub fn push_message(&mut self, message: LogMessage) -> (pushed: Option<()>)
        ensures
            pushed is None <==> old(self)@.is_full(),
            final(self)@ == old(self)@.pushed(message),
    {
        if self.can_push().is_none() {
            return None;
        }
        self._messages.push_back(message);
        Some(())
    }

    /// Takes `message` in behind all others, stamped with the current time,
    /// unless the queue is full. The clock is read only for a message that
    /// is taken in.
    pub fn push(&mut self, message: String) -> (pushed: Option<()>)
        ensures
            pushed is None <==> old(self)@.is_full(),
            pushed is None ==> final(self)@ == old(self)@,
            pushed is Some ==> final(self)@.messages.len() == old(self)@.messages.len() + 1,
            pushed is Some ==> final(self)@.messages.last().message == message,
            pushed is Some ==> final(self)@ == old(self)@.pushed(final(self)@.messages.last()),
    {
        if self.can_push().is_none() {
            return None;
        }
        self.push_message(LogMessage::from(message))
    }

    /// Takes in the message that `get_msg` computes, unless the queue is
    /// full. A full queue never calls `get_msg`: the call is only made
    /// where its precondition is owed.
    pub fn push_lazy<F: FnOnce() -> String>(&mut self, get_msg: F) -> (pushed: Option<()>)
        requires
            !old(self)@.is_full() ==> call_requires(get_msg, ()),
        ensures
            pushed is None <==> old(self)@.is_full(),
            pushed is None ==> final(self)@ == old(self)@,
            pushed is Some ==> final(self)@.messages.len() == old(self)@.messages.len() + 1,
            pushed is Some ==> call_ensures(get_msg, (), final(self)@.messages.last().message),
            pushed is Some ==> final(self)@ == old(self)@.pushed(final(self)@.messages.last()),
    {
        if self.can_push().is_none() {
            return None;
        }
        self.push_message(LogMessage::from(get_msg()))
    }

    /// Takes the oldest message out.
    pub fn pop(&mut self) -> (message: Option<LogMessage>)
        ensures
            message is None <==> old(self)@.messages.len() == 0,
            message matches Some(m) ==> m == old(self)@.messages.first(),
            final(self)@ == old(self)@.popped(),
    {
        self._messages.pop_front()
    }

    /// Whether a push would be taken in.
    pub fn can_push(&self) -> (room: Option<()>)
        ensures
            room is None <==> self@.is_full(),
    {
        if self._capacity > 0 && self._messages.len() >= self._capacity {
            return None;
        }
        Some(())
    }
}

/// `i` is a position below `len`.
pub open spec fn within(i: int, len: int) -> bool {
    0 <= i < len
}

/// What a container holds, as mathematical values.
pub struct LogContainerView {
    /// The configuration that every queue of the container is made under.
    pub config: LogMetricConfView,
    /// The key of each queue, in the order in which the queues were made.
    pub keys: Seq<u64>,
    /// The queues, in the order in which they were made.
    pub metrics: Seq<LogMetricView>,
}

impl LogContainerView {
    /// Each queue has one key, no key occurs twice, and every queue has one
    /// label value for each label name of its configuration.
    pub open spec fn wf(self) -> bool {
        &&& self.keys.len() == self.metrics.len()
        &&& self.keys.no_duplicates()
        &&& forall|i: int| 0 <= i < self.metrics.len() ==> (#[trigger] self.metrics[i]).wf()
    }

    /// Whether a queue is filed under `key`.
    pub open spec fn contains(self, key: u64) -> bool {
        self.keys.contains(key)
    }

    /// The position of the queue filed under `key`.
    pub open spec fn position(self, key: u64) -> int {
        self.keys.index_of(key)
    }

    /// The queue that the container makes for `labels`.
    pub open spec fn fresh(self, labels: Seq<Seq<char>>) -> LogMetricView {
        LogMetricView {
            labels,
            messages: Seq::empty(),
            capacity: self.config.default_capacity,
            config: self.config,
        }
    }

    /// The container after the queue for `labels` was asked for: as it was
    /// where a queue is filed under the fingerprint of `labels`, else with
    /// a fresh queue for `labels` behind all others.
    pub open spec fn with_queue_for(self, labels: Seq<Seq<char>>) -> LogContainerView {
        if self.contains(fingerprint(labels)) {
            self
        } else {
            LogContainerView {
                keys: self.keys.push(fingerprint(labels)),
                metrics: self.metrics.push(self.fresh(labels)),
                ..self
            }
        }
    }

    /// The container with every queue bounded by `capacity`.
    pub open spec fn with_capacity(self, capacity: usize) -> LogContainerView {
        LogContainerView {
            metrics: Seq::new(
                self.metrics.len(),
                |i: int| LogMetricView { capacity, ..self.metrics[i] },
            ),
            ..self
        }
    }
}

/// The queues of one configuration, one for each fingerprint of label
/// values that was asked for, in the order of their making.
pub struct LogContainer {
    _config: Arc<LogMetricConf>,
    _keys: Vec<u64>,
    _metrics: Vec<LogMetric>,
    _index: HashMap<u64, usize>,
}

/// The views of a sequence of queues.
pub open spec fn metrics_view(metrics: Seq<LogMetric>) -> Seq<LogMetricView> {
    Seq::new(metrics.len(), |i: int| metrics[i]@)
}

impl View for LogContainer {
    type V = LogContainerView;

    closed spec fn view(&self) -> LogContainerView {
        LogContainerView {
            config: self._config@,
            keys: self._keys@,
            metrics: metrics_view(self._metrics@),
        }
    }
}

/// The index of a keyed sequence: it maps every key to its position and
/// nothing else.
pub open spec fn indexes(index: Map<u64, usize>, keys: Seq<u64>) -> bool {
    &&& forall|k: u64| #[trigger]
        index.contains_key(k) ==> index[k] < keys.len() && keys[index[k] as int] == k
    &&& forall|i: int|
        0 <= i < keys.len() ==> index.contains_key(#[trigger] keys[i]) && index[keys[i]] == i
}

/// A keyed sequence with an index holds no key twice, and the index tells
/// for every key whether and where it occurs.
pub proof fn lemma_indexes(index: Map<u64, usize>, keys: Seq<u64>)
    requires
        indexes(index, keys),
    ensures
        keys.no_duplicates(),
        forall|k: u64| index.contains_key(k) <==> keys.contains(k),
        forall|k: u64| #[trigger] index.contains_key(k) ==> keys.index_of(k) == index[k],
{
    assert forall|i: int, j: int|
        0 <= i < keys.len() && 0 <= j < keys.len() && i != j implies keys[i] != keys[j] by {
        assert(index[keys[i]] == i);
        assert(index[keys[j]] == j);
    }
    assert forall|k: u64| index.contains_key(k) <==> keys.contains(k) by {
        if index.contains_key(k) {
            assert(keys[index[k] as int] == k);
        }
    }
    assert forall|k: u64| #[trigger] index.contains_key(k) implies keys.index_of(k) == index[k] by {
        assert(keys[index[k] as int] == k);
        keys.index_of_first_ensures(k);
        let first = keys.index_of(k);
        assert(keys[first] == k);
    }
}

/// Adding a key that the index lacks, at the end of the sequence, keeps
/// the index an index.
pub proof fn lemma_indexes_push(index: Map<u64, usize>, keys: Seq<u64>, key: u64)
    requires
        indexes(index, keys),
        !index.contains_key(key),
        keys.len() <= usize::MAX,
    ensures
        indexes(index.insert(key, keys.len() as usize), keys.push(key)),
{
    let grown = keys.push(key);
    let index2 = index.insert(key, keys.len() as usize);
    assert forall|i: int| 0 <= i < grown.len() implies index2.contains_key(#[trigger] grown[i])
        && index2[grown[i]] == i by {
        if i < keys.len() {
            assert(index.contains_key(keys[i]));
        }
    }
}

impl LogContainer {
    /// The container's index tells for every key where its queue stands.
    pub closed spec fn indexed(&self) -> bool {
        indexes(self._index@, self._keys@)
    }

    /// The container is well formed as a value, and its index is in order.
    pub open spec fn wf(&self) -> bool {
        &&& self@.wf()
        &&& self.indexed()
    }

    /// An empty container for `config`.
    pub fn with_config(config: LogMetricConf) -> (container: Self)
        ensures
            container.wf(),
            container@ == (LogContainerView {
                config: config@,
                keys: Seq::empty(),
                metrics: Seq::empty(),
            }),
    {
        let container = LogContainer {
            _config: Arc::new(config),
            _keys: Vec::new(),
            _metrics: Vec::new(),
            _index: HashMap::new(),
        };
        proof {
            assert(container@.metrics =~= Seq::empty());
        }
        container
    }

    /// The queue filed under the fingerprint of `labels`, made first if
    /// there is none yet. Label values with one fingerprint share one
    /// queue: the queue found is the one that was made first, whatever its
    /// own label values are. The container stays well formed as long as
    /// the queue handed out does.
    pub fn get(&mut self, labels: &[&str]) -> (metric: &mut LogMetric)
        requires
            old(self).wf(),
            labels@.len() == old(self)@.config.label_names.len(),
        ensures
            final(self)@.config == old(self)@.config,
            old(self)@.contains(fingerprint(strs_view(labels@))) ==> {
                &&& metric@ == old(self)@.metrics[old(self)@.position(
                    fingerprint(strs_view(labels@)),
                )]
                &&& final(self)@.keys == old(self)@.keys
                &&& final(self)@.metrics == old(self)@.metrics.update(
                    old(self)@.position(fingerprint(strs_view(labels@))),
                    final(metric)@,
                )
            },
            !old(self)@.contains(fingerprint(strs_view(labels@))) ==> {
                &&& metric@ == old(self)@.fresh(strs_view(labels@))
                &&& final(self)@.keys == old(self)@.keys.push(fingerprint(strs_view(labels@)))
                &&& final(self)@.metrics == old(self)@.metrics.push(final(metric)@)
            },
            final(self)@.contains(fingerprint(strs_view(labels@))),
            final(self)@.position(fingerprint(strs_view(labels@))) == (if old(self)@.contains(
                fingerprint(strs_view(labels@)),
            ) {
                old(self)@.position(fingerprint(strs_view(labels@)))
            } else {
                old(self)@.keys.len() as int
            }),
            final(metric)@.wf() ==> final(self).wf(),
            final(metric)@ == metric@ ==> final(self)@ == old(self)@.with_queue_for(
                strs_view(labels@),
            ),
    {
        let key = labels_fingerprint(labels);
        proof {
            lemma_indexes(self._index@, self._keys@);
        }
        let found: Option<usize> = match self._index.get(&key) {
            Some(position) => Some(*position),
            None => None,
        };
        let position: usize = match found {
            Some(position) => position,
            None => {
                let position = self._metrics.len();
                let fresh = LogMetric::with_labels(self._config.clone(), labels);
                proof {
                    lemma_indexes_push(self._index@, self._keys@, key);
                }
                self._keys.push(key);
                self._metrics.push(fresh);
                self._index.insert(key, position);
                position
            },
        };
        proof {
            lemma_indexes(self._index@, self._keys@);
            assert(self._index@.contains_key(key));
            assert(self._keys@.index_of(key) == position as int);
            if old(self)@.contains(key) {
                assert(old(self)._index@.contains_key(key));
                assert(old(self)@.position(key) == position as int);
            }
        }
        let ghost held = self._metrics@;
        let metric = &mut self._metrics[position];
        proof {
            let after = held.update(position as int, *final(metric));
            assert(metrics_view(after) =~= metrics_view(held).update(
                position as int,
                final(metric)@,
            ));
            if old(self)@.contains(key) {
                assert(metrics_view(held) =~= old(self)@.metrics);
                assert(old(self)@.metrics.update(
                    position as int,
                    old(self)@.metrics[position as int],
                ) =~= old(self)@.metrics);
            } else {
                assert(metrics_view(held).update(position as int, final(metric)@)
                    =~= old(self)@.metrics.push(final(metric)@));
            }
        }
        metric
    }

    /// Calls `map` on every queue, in the order of their making, and
    /// collects what the calls return. Each queue is left as its call
    /// leaves it.
    pub fn map<R, F: FnMut(&mut LogMetric) -> R>(&mut self, map: F) -> (out: Vec<R>)
        requires
            old(self).wf(),
            forall|metric: &mut LogMetric|
                (*metric)@.wf() ==> #[trigger] call_requires(map, (metric,)),
        ensures
            out@.len() == old(self)@.metrics.len(),
            final(self)@.config == old(self)@.config,
            final(self)@.keys == old(self)@.keys,
            final(self)@.metrics.len() == old(self)@.metrics.len(),
            final(self).indexed(),
            forall|i: int| #[trigger]
                within(i, out@.len() as int) ==> exists|metric: &mut LogMetric|
                    #![trigger call_ensures(map, (metric,), out@[i])]
                    (*metric)@ == old(self)@.metrics[i] && final(metric)@ == final(self)@.metrics[i]
                        && call_ensures(map, (metric,), out@[i]),
    {
        let mut out: Vec<R> = Vec::new();
        let mut visit = map;
        self.map_into(&mut visit, &mut out);
        proof {
            assert forall|i: int| #[trigger] within(i, out@.len() as int) implies exists|
                metric: &mut LogMetric,
            |
                #![trigger call_ensures(map, (metric,), out@[i])]
                (*metric)@ == old(self)@.metrics[i] && final(metric)@ == self@.metrics[i]
                    && call_ensures(map, (metric,), out@[i]) by {
                assert(within(i, old(self)@.metrics.len() as int));
                assert(out@[0 + i] == out@[i]);
            }
        }
        out
    }

    /// Calls `map` on every queue, in the order of their making, and adds
    /// what the calls return to the end of `out`.
    pub(crate) fn map_into<R, F: FnMut(&mut LogMetric) -> R>(
        &mut self,
        map: &mut F,
        out: &mut Vec<R>,
    )
        requires
            old(self).wf(),
            forall|metric: &mut LogMetric|
                (*metric)@.wf() ==> #[trigger] call_requires(*old(map), (metric,)),
        ensures
            final(out)@.len() == old(out)@.len() + old(self)@.metrics.len(),
            final(out)@.take(old(out)@.len() as int) == old(out)@,
            final(self)@.config == old(self)@.config,
            final(self)@.keys == old(self)@.keys,
            final(self)@.metrics.len() == old(self)@.metrics.len(),
            final(self).indexed(),
            *final(map) == *old(map),
            forall|i: int| #[trigger]
                within(i, old(self)@.metrics.len() as int) ==> exists|metric: &mut LogMetric|
                    #![trigger call_ensures(*old(map), (metric,), final(out)@[old(out)@.len() + i])]
                    (*metric)@ == old(self)@.metrics[i] && final(metric)@ == final(self)@.metrics[i]
                        && call_ensures(*old(map), (metric,), final(out)@[old(out)@.len() + i]),
    {
        let ghost base = out@.len() as int;
        let mut i: usize = 0;
        while i < self._metrics.len()
            invariant
                forall|metric: &mut LogMetric|
                    (*metric)@.wf() ==> #[trigger] call_requires(*map, (metric,)),
                old(self)@.wf(),
                *map == *old(map),
                base == old(out)@.len(),
                i <= self._metrics.len(),
                out@.len() == base + i,
                out@.take(base) == old(out)@,
                self._config == old(self)._config,
                self._keys == old(self)._keys,
                self._index == old(self)._index,
                self._metrics@.len() == old(self)._metrics@.len(),
                forall|j: int|
                    i <= j < self._metrics@.len() ==> self._metrics@[j] == old(self)._metrics@[j],
                forall|j: int| #[trigger]
                    within(j, i as int) ==> exists|metric: &mut LogMetric|
                        #![trigger call_ensures(*map, (metric,), out@[base + j])]
                        (*metric)@ == old(self)._metrics@[j]@ && final(metric)@
                            == self._metrics@[j]@ && call_ensures(*map, (metric,), out@[base + j]),
            decreases self._metrics.len() - i,
        {
            let ghost held = self._metrics@;
            let ghost collected = out@;
            proof {
                assert(held[i as int] == old(self)._metrics@[i as int]);
                assert(old(self)@.metrics[i as int].wf());
            }
            let value = map(&mut self._metrics[i]);
            assert(exists|metric: &mut LogMetric|
                #![trigger call_ensures(*map, (metric,), value)]
                (*metric)@ == old(self)._metrics@[i as int]@ && final(metric)@
                    == self._metrics@[i as int]@ && call_ensures(*map, (metric,), value));
            out.push(value);
            proof {
                assert(out@.take(base) =~= collected.take(base));
                assert forall|j: int| #[trigger] within(j, i + 1) implies exists|
                    metric: &mut LogMetric,
                |
                    #![trigger call_ensures(*map, (metric,), out@[base + j])]
                    (*metric)@ == old(self)._metrics@[j]@ && final(metric)@
                        == self._metrics@[j]@ && call_ensures(*map, (metric,), out@[base + j]) by {
                    if j < i {
                        assert(within(j, i as int));
                        assert(out@[base + j] == collected[base + j]);
                        assert(self._metrics@[j] == held[j]);
                    } else {
                        assert(out@[base + j] == value);
                    }
                }
            }
            i += 1;
        }
    }

    /// The configuration that the queues of the container are made under.
    pub fn config(&self) -> (config: &Arc<LogMetricConf>)
        ensures
            config@ == self@.config,
    {
        &self._config
    }

    /// The queues, in the order of their making.
    pub fn values(&self) -> (metrics: &Vec<LogMetric>)
        ensures
            metrics_view(metrics@) == self@.metrics,
    {
        &self._metrics
    }

    /// Bounds every queue of the container by `capacity`.
    pub fn set_capacity_for_all(&mut self, capacity: usize)
        requires
            old(self).wf(),
        ensures
            final(self).wf(),
            final(self)@ == old(self)@.with_capacity(capacity),
    {
        let mut i: usize = 0;
        while i < self._metrics.len()
            invariant
                i <= self._metrics.len(),
                self._config == old(self)._config,
                self._keys == old(self)._keys,
                self._index == old(self)._index,
                self._metrics@.len() == old(self)._metrics@.len(),
                forall|j: int|
                    0 <= j < i ==> (#[trigger] self._metrics@[j])@ == (LogMetricView {
                        capacity,
                        ..old(self)._metrics@[j]@
                    }),
                forall|j: int|
                    i <= j < self._metrics@.len() ==> #[trigger] self._metrics@[j]
                        == old(self)._metrics@[j],
            decreases self._metrics.len() - i,
        {
            self._metrics[i].set_capacity(capacity);
            i += 1;
        }
        proof {
            assert(self@.metrics =~= old(self)@.with_capacity(capacity).metrics);
            assert forall|j: int| 0 <= j < self@.metrics.len() implies (
            #[trigger] self@.metrics[j]).wf() by {
                assert(old(self)@.metrics[j].wf());
            }
        }
    }
}

/// What a registry holds, as mathematical values.
pub struct LogView {
    /// The key of each container, in the order in which they were made.
    pub keys: Seq<u64>,
    /// The containers, in the order in which they were made.
    pub containers: Seq<LogContainerView>,
}

/// The queues of a sequence of containers, container after container.
pub open spec fn all_queues(containers: Seq<LogContainerView>) -> Seq<LogMetricView>
    decreases containers.len(),
{
    if containers.len() == 0 {
        Seq::empty()
    } else {
        all_queues(containers.drop_last()) + containers.last().metrics
    }
}

impl LogView {
    /// Each container has one key, no key occurs twice, and every
    /// container is well formed.
    pub open spec fn wf(self) -> bool {
        &&& self.keys.len() == self.containers.len()
        &&& self.keys.no_duplicates()
        &&& forall|i: int|
            0 <= i < self.containers.len() ==> (#[trigger] self.containers[i]).wf()
    }

    /// Whether a container is filed under `key`.
    pub open spec fn contains(self, key: u64) -> bool {
        self.keys.contains(key)
    }

    /// The position of the container filed under `key`.
    pub open spec fn position(self, key: u64) -> int {
        self.keys.index_of(key)
    }

    /// The registry after the container for `config` was asked for: as it
    /// was where one is filed under the key of `config`, else with an empty
    /// container for `config` behind all others.
    pub open spec fn with_container_for(self, config: LogMetricConfView) -> LogView {
        if self.contains(config.key) {
            self
        } else {
            LogView {
                keys: self.keys.push(config.key),
                containers: self.containers.push(empty_container(config)),
            }
        }
    }

    /// Every queue of the registry, container after container.
    pub open spec fn queues(self) -> Seq<LogMetricView> {
        all_queues(self.containers)
    }

    /// Whether `other` holds the same containers with the same keys, the
    /// same configurations and as many queues under the same keys each.
    pub open spec fn same_shape(self, other: LogView) -> bool {
        &&& self.keys == other.keys
        &&& self.containers.len() == other.containers.len()
        &&& forall|i: int|
            0 <= i < self.containers.len() ==> {
                &&& (#[trigger] self.containers[i]).keys == other.containers[i].keys
                &&& self.containers[i].config == other.containers[i].config
                &&& self.containers[i].metrics.len() == other.containers[i].metrics.len()
            }
    }
}

/// The container that a registry makes for a configuration.
pub open spec fn empty_container(config: LogMetricConfView) -> LogContainerView {
    LogContainerView { config, keys: Seq::empty(), metrics: Seq::empty() }
}

/// The views of a sequence of containers.
pub open spec fn containers_view(containers: Seq<LogContainer>) -> Seq<LogContainerView> {
    Seq::new(containers.len(), |i: int| containers[i]@)
}

/// The containers of a program, one for each configuration key that was
/// asked for, in the order of their making.
pub struct Log {
    _keys: Vec<u64>,
    _containers: Vec<LogContainer>,
    _index: HashMap<u64, usize>,
}

impl View for Log {
    type V = LogView;

    closed spec fn view(&self) -> LogView {
        LogView { keys: self._keys@, containers: containers_view(self._containers@) }
    }
}

impl Log {
    /// The registry's index tells for every key where its container
    /// stands, and so does the index of every container.
    pub closed spec fn indexed(&self) -> bool {
        &&& indexes(self._index@, self._keys@)
        &&& forall|i: int|
            0 <= i < self._containers@.len() ==> (#[trigger] self._containers@[i]).indexed()
    }

    /// The registry is well formed as a value, and its indexes are in order.
    pub open spec fn wf(&self) -> bool {
        &&& self@.wf()
        &&& self.indexed()
    }

    /// A registry without containers.
    pub fn new() -> (log: Self)
        ensures
            log.wf(),
            log@.keys == Seq::<u64>::empty(),
            log@.containers == Seq::<LogContainerView>::empty(),
    {
        let log = Log { _keys: Vec::new(), _containers: Vec::new(), _index: HashMap::new() };
        proof {
            assert(log@.containers =~= Seq::empty());
        }
        log
    }

    /// Makes the container for `config`, unless one is filed under its key
    /// already.
    pub fn create(&mut self, config: LogMetricConf) -> (created: Option<&mut LogContainer>)
        requires
            old(self).wf(),
        ensures
            created is None <==> old(self)@.contains(config@.key),
            created is None ==> final(self)@ == old(self)@ && final(self).wf(),
            created is Some ==> {
                &&& created.unwrap()@ == empty_container(config@)
                &&& created.unwrap().wf()
                &&& final(self)@.keys == old(self)@.keys.push(config@.key)
                &&& final(self)@.containers == old(self)@.containers.push(
                    final(created.unwrap())@,
                )
                &&& final(created.unwrap()).wf() ==> final(self).wf()
            },
    {
        let key = config.get_key();
        proof {
            lemma_indexes(self._index@, self._keys@);
        }
        if self._index.contains_key(&key) {
            return None;
        }
        let position = self._containers.len();
        proof {
            lemma_indexes_push(self._index@, self._keys@, key);
        }
        self._keys.push(key);
        self._containers.push(LogContainer::with_config(config));
        self._index.insert(key, position);
        proof {
            lemma_indexes(self._index@, self._keys@);
        }
        let ghost held = self._containers@;
        let container = &mut self._containers[position];
        proof {
            let after = held.update(position as int, *final(container));
            assert(containers_view(after) =~= old(self)@.containers.push(final(container)@));
        }
        Some(container)
    }

    /// The container filed under the key of `config`, made first if there
    /// is none yet. Configurations with one key share one container: the
    /// container found keeps the configuration that it was made for. The
    /// registry stays well formed as long as the container handed out
    /// does.
    pub fn get(&mut self, config: LogMetricConf) -> (container: &mut LogContainer)
        requires
            old(self).wf(),
        ensures
            container.wf(),
            old(self)@.contains(config@.key) ==> {
                &&& container@ == old(self)@.containers[old(self)@.position(config@.key)]
                &&& final(self)@.keys == old(self)@.keys
                &&& final(self)@.containers == old(self)@.containers.update(
                    old(self)@.position(config@.key),
                    final(container)@,
                )
            },
            !old(self)@.contains(config@.key) ==> {
                &&& container@ == empty_container(config@)
                &&& final(self)@.keys == old(self)@.keys.push(config@.key)
                &&& final(self)@.containers == old(self)@.containers.push(final(container)@)
            },
            final(self)@.contains(config@.key),
            final(self)@.position(config@.key) == (if old(self)@.contains(config@.key) {
                old(self)@.position(config@.key)
            } else {
                old(self)@.keys.len() as int
            }),
            final(container).wf() ==> final(self).wf(),
            final(container)@ == container@ ==> final(self)@ == old(self)@.with_container_for(
                config@,
            ),
    {
        let key = config.get_key();
        proof {
            lemma_indexes(self._index@, self._keys@);
        }
        let found: Option<usize> = match self._index.get(&key) {
            Some(position) => Some(*position),
            None => None,
        };
        let position: usize = match found {
            Some(position) => position,
            None => {
                let position = self._containers.len();
                proof {
                    lemma_indexes_push(self._index@, self._keys@, key);
                }
                self._keys.push(key);
                self._containers.push(LogContainer::with_config(config));
                self._index.insert(key, position);
                position
            },
        };
        proof {
            lemma_indexes(self._index@, self._keys@);
            assert(self._index@.contains_key(key));
            assert(self._keys@.index_of(key) == position as int);
            if old(self)@.contains(key) {
                assert(old(self)._index@.contains_key(key));
                assert(old(self)@.position(key) == position as int);
            }
        }
        let ghost held = self._containers@;
        let container = &mut self._containers[position];
        proof {
            let after = held.update(position as int, *final(container));
            assert(containers_view(after) =~= containers_view(held).update(
                position as int,
                final(container)@,
            ));
            if old(self)@.contains(key) {
                assert(containers_view(held) =~= old(self)@.containers);
                assert(old(self)@.containers[position as int].wf());
                assert(old(self)@.containers.update(
                    position as int,
                    old(self)@.containers[position as int],
                ) =~= old(self)@.containers);
            } else {
                assert(containers_view(held).update(position as int, final(container)@)
                    =~= old(self)@.containers.push(final(container)@));
            }
        }
        container
    }
}

/// The queues of a sequence of containers with one more container behind
/// are the queues of the sequence followed by the queues of that container.
pub proof fn lemma_all_queues_push(containers: Seq<LogContainerView>, last: LogContainerView)
    ensures
        all_queues(containers.push(last)) == all_queues(containers) + last.metrics,
{
    assert(containers.push(last).drop_last() =~= containers);
}

impl Log {
    /// Calls `map` on every queue of every container, container after
    /// container, and collects what the calls return. Each queue is left
    /// as its call leaves it.
    pub fn map<R, F: FnMut(&mut LogMetric) -> R>(&mut self, map: F) -> (out: Vec<R>)
        requires
            old(self).wf(),
            forall|metric: &mut LogMetric|
                (*metric)@.wf() ==> #[trigger] call_requires(map, (metric,)),
        ensures
            out@.len() == old(self)@.queues().len(),
            final(self)@.queues().len() == old(self)@.queues().len(),
            final(self)@.same_shape(old(self)@),
            final(self).indexed(),
            forall|i: int| #[trigger]
                within(i, out@.len() as int) ==> exists|metric: &mut LogMetric|
                    #![trigger call_ensures(map, (metric,), out@[i])]
                    (*metric)@ == old(self)@.queues()[i] && final(metric)@
                        == final(self)@.queues()[i] && call_ensures(map, (metric,), out@[i]),
    {
        let mut out: Vec<R> = Vec::new();
        let mut visit = map;
        let ghost start = self@.containers;
        let mut i: usize = 0;
        proof {
            assert(start.take(0) =~= Seq::empty());
        }
        while i < self._containers.len()
            invariant
                forall|metric: &mut LogMetric|
                    (*metric)@.wf() ==> #[trigger] call_requires(map, (metric,)),
                old(self).wf(),
                visit == map,
                start == old(self)@.containers,
                i <= self._containers.len(),
                self._keys == old(self)._keys,
                self._index == old(self)._index,
                self._containers@.len() == old(self)._containers@.len(),
                forall|j: int|
                    i <= j < self._containers@.len() ==> self._containers@[j]
                        == old(self)._containers@[j],
                forall|j: int|
                    0 <= j < self._containers@.len() ==> {
                        &&& (#[trigger] self._containers@[j]).indexed()
                        &&& self._containers@[j]@.keys == start[j].keys
                        &&& self._containers@[j]@.config == start[j].config
                        &&& self._containers@[j]@.metrics.len() == start[j].metrics.len()
                    },
                out@.len() == all_queues(start.take(i as int)).len(),
                out@.len() == all_queues(self@.containers.take(i as int)).len(),
                forall|k: int| #[trigger]
                    within(k, out@.len() as int) ==> exists|metric: &mut LogMetric|
                        #![trigger call_ensures(map, (metric,), out@[k])]
                        (*metric)@ == all_queues(start.take(i as int))[k] && final(metric)@
                            == all_queues(self@.containers.take(i as int))[k] && call_ensures(
                            map,
                            (metric,),
                            out@[k],
                        ),
            decreases self._containers.len() - i,
        {
            let ghost held = self@.containers;
            let ghost collected = out@;
            let ghost base = out@.len() as int;
            proof {
                assert(self._containers@[i as int] == old(self)._containers@[i as int]);
                assert(old(self)@.containers[i as int].wf());
                assert(held[i as int] == start[i as int]);
            }
            self._containers[i].map_into(&mut visit, &mut out);
            proof {
                let now = self@.containers;
                assert(now.take(i as int) =~= held.take(i as int));
                assert(now.take(i + 1) =~= now.take(i as int).push(now[i as int]));
                assert(start.take(i + 1) =~= start.take(i as int).push(start[i as int]));
                lemma_all_queues_push(now.take(i as int), now[i as int]);
                lemma_all_queues_push(start.take(i as int), start[i as int]);
                let was = all_queues(start.take(i + 1));
                let is = all_queues(now.take(i + 1));
                assert(was.len() == base + start[i as int].metrics.len());
                assert(is.len() == base + start[i as int].metrics.len());
                assert forall|k: int| #[trigger] within(k, out@.len() as int) implies exists|
                    metric: &mut LogMetric,
                |
                    #![trigger call_ensures(map, (metric,), out@[k])]
                    (*metric)@ == was[k] && final(metric)@ == is[k] && call_ensures(
                        map,
                        (metric,),
                        out@[k],
                    ) by {
                    if k < base {
                        assert(within(k, base));
                        assert(out@.take(base)[k] == collected[k]);
                        assert(out@[k] == collected[k]);
                        assert(was[k] == all_queues(start.take(i as int))[k]);
                        assert(is[k] == all_queues(held.take(i as int))[k]);
                    } else {
                        assert(within(k - base, start[i as int].metrics.len() as int));
                        assert(out@[base + (k - base)] == out@[k]);
                        assert(was[k] == start[i as int].metrics[k - base]);
                        assert(is[k] == now[i as int].metrics[k - base]);
                    }
                }
            }
            i += 1;
        }
        proof {
            assert(start.take(i as int) =~= start);
            assert(self@.containers.take(i as int) =~= self@.containers);
        }
        out
    }
}

/// Two configurations with the same constant-label names and the same label
/// names resolve to one container: once the container for the first was
/// asked for, asking for the container of the second makes none and leads
/// to the place of the first.
pub proof fn lemma_registry_deduplicates(registry: LogView, a: LogMetricConf, b: LogMetricConf)
    requires
        a.wf(),
        b.wf(),
        pair_names(a@.const_labels) == pair_names(b@.const_labels),
        a@.label_names == b@.label_names,
    ensures
        registry.with_container_for(a@).contains(b@.key),
        registry.with_container_for(a@).with_container_for(b@) == registry.with_container_for(a@),
        registry.with_container_for(a@).position(b@.key) == registry.with_container_for(
            a@,
        ).position(a@.key),
{
    lemma_same_names_same_key(a, b);
    if !registry.contains(a@.key) {
        let grown = registry.keys.push(a@.key);
        assert(grown[registry.keys.len() as int] == a@.key);
    }
}

/// Asking a container twice for the queue of the same label values makes
/// one queue: the second request finds the queue of the first.
pub proof fn lemma_container_deduplicates(container: LogContainerView, labels: Seq<Seq<char>>)
    ensures
        container.with_queue_for(labels).contains(fingerprint(labels)),
        container.with_queue_for(labels).with_queue_for(labels) == container.with_queue_for(
            labels,
        ),
{
    if !container.contains(fingerprint(labels)) {
        let grown = container.keys.push(fingerprint(labels));
        assert(grown[container.keys.len() as int] == fingerprint(labels));
    }
}

/// The queues of the first containers of a sequence are a prefix of the
/// queues of all of them.
pub proof fn lemma_all_queues_prefix(containers: Seq<LogContainerView>, count: int)
    requires
        0 <= count <= containers.len(),
    ensures
        all_queues(containers.take(count)).len() <= all_queues(containers).len(),
        all_queues(containers.take(count)) == all_queues(containers).take(
            all_queues(containers.take(count)).len() as int,
        ),
    decreases containers.len(),
{
    if count == containers.len() {
        assert(containers.take(count) =~= containers);
        assert(all_queues(containers).take(all_queues(containers).len() as int) =~= all_queues(
            containers,
        ));
    } else {
        assert(containers.drop_last().take(count) =~= containers.take(count));
        lemma_all_queues_prefix(containers.drop_last(), count);
        let shorter = all_queues(containers.drop_last());
        let head = all_queues(containers.take(count));
        assert(head =~= all_queues(containers).take(head.len() as int));
    }
}

/// Where the queue at place `j` of the container at place `c` stands among
/// all queues.
pub open spec fn queue_place(containers: Seq<LogContainerView>, c: int, j: int) -> int {
    all_queues(containers.take(c)).len() + j
}

/// The queue at place `j` of the container at place `c` stands among all
/// queues behind the queues of the containers before `c`.
pub proof fn lemma_queue_place(containers: Seq<LogContainerView>, c: int, j: int)
    requires
        0 <= c < containers.len(),
        0 <= j < containers[c].metrics.len(),
    ensures
        0 <= queue_place(containers, c, j) < all_queues(containers).len(),
        all_queues(containers)[queue_place(containers, c, j)] == containers[c].metrics[j],
{
    lemma_all_queues_prefix(containers, c + 1);
    assert(containers.take(c + 1) =~= containers.take(c).push(containers[c]));
    lemma_all_queues_push(containers.take(c), containers[c]);
    let upto = all_queues(containers.take(c + 1));
    assert(upto[queue_place(containers, c, j)] == containers[c].metrics[j]);
    assert(all_queues(containers).take(upto.len() as int)[queue_place(containers, c, j)]
        == all_queues(containers)[queue_place(containers, c, j)]);
}

/// Every queue of a well-formed registry is well formed.
pub proof fn lemma_queue_wf(registry: LogView, place: int)
    requires
        registry.wf(),
        0 <= place < registry.queues().len(),
    ensures
        registry.queues()[place].wf(),
{
    lemma_all_queues_wf(registry.containers, place);
}

/// Every queue of a sequence of well-formed containers is well formed.
pub proof fn lemma_all_queues_wf(containers: Seq<LogContainerView>, place: int)
    requires
        forall|c: int| 0 <= c < containers.len() ==> (#[trigger] containers[c]).wf(),
        0 <= place < all_queues(containers).len(),
    ensures
        all_queues(containers)[place].wf(),
    decreases containers.len(),
{
    if containers.len() > 0 {
        let rest = containers.drop_last();
        if place < all_queues(rest).len() {
            assert forall|c: int| 0 <= c < rest.len() implies (#[trigger] rest[c]).wf() by {
                assert(containers[c].wf());
            }
            lemma_all_queues_wf(rest, place);
        } else {
            assert(containers.last().wf());
            assert(containers.last().metrics[place - all_queues(rest).len()].wf());
        }
    }
}

/// A registry of the same shape as a well-formed one, whose queues are all
/// well formed, is well formed.
pub proof fn lemma_same_shape_wf(before: LogView, after: LogView)
    requires
        before.wf(),
        after.same_shape(before),
        after.queues().len() == before.queues().len(),
        forall|i: int| 0 <= i < after.queues().len() ==> (#[trigger] after.queues()[i]).wf(),
    ensures
        after.wf(),
{
    assert forall|c: int| 0 <= c < after.containers.len() implies (
    #[trigger] after.containers[c]).wf() by {
        assert(before.containers[c].wf());
        assert forall|j: int| 0 <= j < after.containers[c].metrics.len() implies (
        #[trigger] after.containers[c].metrics[j]).wf() by {
            lemma_queue_place(after.containers, c, j);
            assert(after.queues()[queue_place(after.containers, c, j)].wf());
        }
    }
}

/// A bounded queue that holds no more messages than its bound stays within
/// it under any sequence of pushes.
pub proof fn lemma_pushes_keep_bound(queue: LogMetricView, messages: Seq<LogMessage>)
    requires
        queue.capacity > 0,
        queue.messages.len() <= queue.capacity,
    ensures
        queue.pushed_all(messages).messages.len() <= queue.capacity,
        queue.pushed_all(messages).capacity == queue.capacity,
    decreases messages.len(),
{
    if messages.len() > 0 {
        lemma_pushes_keep_bound(queue, messages.drop_last());
    }
}

/// A bounded queue that holds as many messages as its bound, or more, does
/// not grow, whatever is pushed.
pub proof fn lemma_pushes_do_not_grow_beyond(queue: LogMetricView, messages: Seq<LogMessage>)
    requires
        queue.capacity > 0,
        queue.messages.len() >= queue.capacity,
    ensures
        queue.pushed_all(messages) == queue,
    decreases messages.len(),
{
    if messages.len() > 0 {
        lemma_pushes_do_not_grow_beyond(queue, messages.drop_last());
    }
}

/// Pushes into a queue with room for all of them are all taken in, in order.
pub proof fn lemma_pushes_with_room(queue: LogMetricView, messages: Seq<LogMessage>)
    requires
        queue.capacity == 0 || queue.messages.len() + messages.len() <= queue.capacity,
    ensures
        queue.pushed_all(messages) == (LogMetricView {
            messages: queue.messages + messages,
            ..queue
        }),
    decreases messages.len(),
{
    if messages.len() == 0 {
        assert(queue.messages + messages =~= queue.messages);
    } else {
        lemma_pushes_with_room(queue, messages.drop_last());
        assert(queue.messages + messages =~= (queue.messages + messages.drop_last()).push(
            messages.last(),
        ));
    }
}

/// After as many pushes into an empty queue as its bound allows, one more
/// push is turned away and leaves the queue as it was.
pub proof fn lemma_push_beyond_bound(
    queue: LogMetricView,
    messages: Seq<LogMessage>,
    extra: LogMessage,
)
    requires
        queue.capacity > 0,
        queue.messages.len() == 0,
        messages.len() == queue.capacity,
    ensures
        queue.pushed_all(messages).is_full(),
        queue.pushed_all(messages).pushed(extra) == queue.pushed_all(messages),
        queue.pushed_all(messages.push(extra)) == queue.pushed_all(messages),
{
    lemma_pushes_with_room(queue, messages);
    assert(messages.push(extra).drop_last() =~= messages);
}

/// Popping a queue until it is empty yields its messages, oldest first.
pub proof fn lemma_drained_is_messages(queue: LogMetricView)
    ensures
        queue.drained() == queue.messages,
    decreases queue.messages.len(),
{
    if queue.messages.len() > 0 {
        lemma_drained_is_messages(queue.popped());
        assert(seq![queue.messages.first()] + queue.messages.drop_first() =~= queue.messages);
    }
}

/// Messages pushed into an empty queue with room for them come out, when
/// the queue is drained, in the order in which they were pushed.
pub proof fn lemma_first_in_first_out(queue: LogMetricView, messages: Seq<LogMessage>)
    requires
        queue.messages.len() == 0,
        queue.capacity == 0 || messages.len() <= queue.capacity,
    ensures
        queue.pushed_all(messages).drained() == messages,
{
    lemma_pushes_with_room(queue, messages);
    lemma_drained_is_messages(queue.pushed_all(messages));
    assert(queue.messages + messages =~= messages);
}

} // verus!
