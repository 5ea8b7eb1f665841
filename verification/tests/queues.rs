use logpush::clock::EpochTime;
use logpush::fingerprint::labels_fingerprint;
use logpush::log::{Log, LogContainer, LogMetric};
use logpush::loki::{LokiModel, LokiStream};
use logpush::models::{LogMessage, LogMetricConf, LogMetricConfBuilder, DEFAULT_CAPACITY};
use std::cell::Cell;
use std::sync::Arc;

fn conf(names: &[&str], capacity: usize) -> LogMetricConf {
    LogMetricConfBuilder::new().add_labels(names).set_default_capacity(capacity).build()
}

#[test]
fn it_works() {
    let mut log = Log::new();
    {
        let metric1 = log
            .get(LogMetricConfBuilder::new().add_labels(&["one", "two"]).set_default_capacity(2).build())
            .get(&["1", "2"]);
        assert_eq!(metric1.push("Message1-1".to_string()), Some(()));
        assert_eq!(metric1.push_lazy(|| "Message1-2".to_string()), Some(()));
        assert_eq!(metric1.push_lazy(|| "Message1-3".to_string()), None);
    }
    {
        let metric2 = log.get(LogMetricConfBuilder::new().add_labels(&["three"]).build()).get(&["3"]);
        metric2.push("Message3-1".to_string());
        metric2.push("Message3-2".to_string());
        metric2.push("Message3-3".to_string());
    }
    {
        let metric3 = log.get(LogMetricConfBuilder::new().add_labels(&["three"]).build()).get(&["4"]);
        metric3.push("Message4-1".to_string());
        metric3.push("Message4-2".to_string());
        metric3.push("Message4-3".to_string());
    }
    {
        let metric3 = log.get(LogMetricConfBuilder::new().add_labels(&["three"]).build()).get(&["4"]);
        metric3.push("Message4-4".to_string());
    }

    let data: LokiModel = log.map(|e| LokiStream::from(e)).into();
    assert_eq!(data.streams.len(), 3);
    assert_eq!(data.streams[0].labels, "{one=\"1\",two=\"2\"}");
    assert_eq!(data.streams[0].len(), 2);
    assert_eq!(data.streams[0].entries[0].line, "Message1-1");
    assert_eq!(data.streams[0].entries[1].line, "Message1-2");
    assert_eq!(data.streams[1].labels, "{three=\"3\"}");
    assert_eq!(data.streams[1].len(), 3);
    assert_eq!(data.streams[2].labels, "{three=\"4\"}");
    assert_eq!(data.streams[2].len(), 4);
    assert_eq!(data.streams[2].entries[3].line, "Message4-4");
}

#[test]
fn builder_starts_with_default_capacity() {
    let c = LogMetricConfBuilder::new().build();
    assert_eq!(DEFAULT_CAPACITY, 1024);
    assert_eq!(c.get_default_capacity(), 1024);
    assert!(c.get_label_names().is_empty());
    assert!(c.get_const_labels().is_empty());
    let d = LogMetricConfBuilder::default().build();
    assert_eq!(d.get_default_capacity(), 1024);
    assert_eq!(d.get_key(), c.get_key());
}

#[test]
fn builder_collects_in_order() {
    let mut c = LogMetricConfBuilder::new()
        .add_const_label("job", "x")
        .add_label("a")
        .add_labels(&["b", "c"])
        .add_const_label("env", "y")
        .set_default_capacity(7)
        .build();
    assert_eq!(c.get_label_names(), &vec!["a".to_string(), "b".to_string(), "c".to_string()]);
    assert_eq!(
        c.get_const_labels(),
        &vec![["job".to_string(), "x".to_string()], ["env".to_string(), "y".to_string()]]
    );
    assert_eq!(c.get_default_capacity(), 7);
    let key = c.get_key();
    c.set_default_capacity(9);
    assert_eq!(c.get_default_capacity(), 9);
    assert_eq!(c.get_key(), key);
}

#[test]
fn fingerprint_is_fnv1a_of_the_bytes_in_order() {
    assert_eq!(labels_fingerprint(&[]), 0xcbf29ce484222325);
    assert_eq!(labels_fingerprint(&["a"]), 0xaf63dc4c8601ec8c);
    assert_eq!(labels_fingerprint(&["foobar"]), 0x85944171f73967e8);
    assert_eq!(labels_fingerprint(&["foo", "bar"]), 0x85944171f73967e8);
    assert_eq!(labels_fingerprint(&["chongo was here"]), 0xa3de85bd491270ce);
    assert_ne!(labels_fingerprint(&["a", "b"]), labels_fingerprint(&["b", "a"]));
}

#[test]
fn config_key_hashes_const_names_then_label_names() {
    let c = LogMetricConfBuilder::new().add_labels(&["foo", "bar"]).build();
    assert_eq!(c.get_key(), 0x85944171f73967e8);
    let d = LogMetricConfBuilder::new().add_const_label("foo", "ignored").add_label("bar").build();
    assert_eq!(d.get_key(), 0x85944171f73967e8);
    let e = LogMetricConfBuilder::new().add_label("bar").add_const_label("foo", "other").build();
    assert_eq!(e.get_key(), 0x85944171f73967e8);
    let empty = LogMetricConfBuilder::new().build();
    assert_eq!(empty.get_key(), 0xcbf29ce484222325);
}

#[test]
fn same_names_give_the_same_key() {
    let a = LogMetricConfBuilder::new().add_const_label("job", "x").add_labels(&["a", "b"]).build();
    let b = LogMetricConfBuilder::new()
        .add_const_label("job", "another")
        .add_label("a")
        .add_label("b")
        .set_default_capacity(3)
        .build();
    assert_eq!(a.get_key(), b.get_key());
    let c = LogMetricConfBuilder::new().add_const_label("job", "x").add_labels(&["b", "a"]).build();
    assert_ne!(a.get_key(), c.get_key());
}

#[test]
fn queue_starts_empty_with_the_default_capacity() {
    let m = LogMetric::with_labels(Arc::new(conf(&["one", "two"], 5)), &["1", "2"]);
    assert_eq!(m.len(), 0);
    assert_eq!(m.labels(), &vec!["1".to_string(), "2".to_string()]);
    assert_eq!(m.config().get_default_capacity(), 5);
    assert_eq!(m.can_push(), Some(()));
}

#[test]
fn queue_never_holds_more_than_its_capacity() {
    let mut m = LogMetric::with_labels(Arc::new(conf(&["one"], 3)), &["1"]);
    for i in 0..3 {
        assert_eq!(m.push(format!("m{}", i)), Some(()));
        assert!(m.len() <= 3);
    }
    assert_eq!(m.len(), 3);
    assert_eq!(m.can_push(), None);
    assert_eq!(m.push("m3".to_string()), None);
    assert_eq!(m.push_lazy(|| "m4".to_string()), None);
    assert_eq!(m.len(), 3);
    assert_eq!(m.pop().unwrap().message, "m0");
    assert_eq!(m.pop().unwrap().message, "m1");
    assert_eq!(m.pop().unwrap().message, "m2");
    assert!(m.pop().is_none());
}

#[test]
fn queue_without_capacity_is_unbounded() {
    let mut m = LogMetric::with_labels(Arc::new(conf(&["one"], 0)), &["1"]);
    for i in 0..2000 {
        assert_eq!(m.push(format!("m{}", i)), Some(()));
    }
    assert_eq!(m.len(), 2000);
    assert_eq!(m.can_push(), Some(()));
}

#[test]
fn queue_is_first_in_first_out() {
    let mut m = LogMetric::with_labels(Arc::new(conf(&["one"], 0)), &["1"]);
    let texts = ["m1", "m2", "m3", "m4", "m5"];
    for t in texts.iter() {
        m.push(t.to_string());
    }
    let mut out = Vec::new();
    while let Some(message) = m.pop() {
        out.push(message.message);
    }
    assert_eq!(out, vec!["m1", "m2", "m3", "m4", "m5"]);
    assert_eq!(m.len(), 0);
    assert!(m.pop().is_none());
}

#[test]
fn pop_interleaved_with_push_keeps_order() {
    let mut m = LogMetric::with_labels(Arc::new(conf(&["one"], 2)), &["1"]);
    m.push("a".to_string());
    m.push("b".to_string());
    assert_eq!(m.pop().unwrap().message, "a");
    assert_eq!(m.push("c".to_string()), Some(()));
    assert_eq!(m.push("d".to_string()), None);
    assert_eq!(m.pop().unwrap().message, "b");
    assert_eq!(m.pop().unwrap().message, "c");
    assert!(m.pop().is_none());
}

#[test]
fn lazy_push_does_not_compute_when_full() {
    let mut m = LogMetric::with_labels(Arc::new(conf(&["one"], 1)), &["1"]);
    let calls = Cell::new(0);
    assert_eq!(
        m.push_lazy(|| {
            calls.set(calls.get() + 1);
            "first".to_string()
        }),
        Some(())
    );
    assert_eq!(calls.get(), 1);
    assert_eq!(
        m.push_lazy(|| {
            calls.set(calls.get() + 1);
            "second".to_string()
        }),
        None
    );
    assert_eq!(calls.get(), 1);
    assert_eq!(m.len(), 1);
    assert_eq!(m.pop().unwrap().message, "first");
}

#[test]
fn set_capacity_does_not_trim() {
    let mut m = LogMetric::with_labels(Arc::new(conf(&["one"], 0)), &["1"]);
    m.push("a".to_string());
    m.push("b".to_string());
    m.push("c".to_string());
    m.set_capacity(3);
    assert_eq!(m.push("d".to_string()), None);
    m.set_capacity(4);
    assert_eq!(m.push("d".to_string()), Some(()));
    assert_eq!(m.push("e".to_string()), None);
    m.set_capacity(2);
    assert_eq!(m.len(), 4);
    assert_eq!(m.pop().unwrap().message, "a");
}

#[test]
fn lowered_capacity_prevents_further_growth() {
    let mut m = LogMetric::with_labels(Arc::new(conf(&["a"], 0)), &["1"]);
    assert_eq!(m.push("a".to_string()), Some(()));
    assert_eq!(m.push("b".to_string()), Some(()));
    assert_eq!(m.push("c".to_string()), Some(()));
    m.set_capacity(2);
    assert_eq!(m.can_push(), None);
    assert_eq!(m.push("d".to_string()), None);
    assert_eq!(m.push_lazy(|| "e".to_string()), None);
    assert_eq!(m.len(), 3);
    // Nothing is trimmed, and room comes back below the bound.
    assert_eq!(m.pop().unwrap().message, "a");
    assert_eq!(m.push("d".to_string()), None);
    assert_eq!(m.pop().unwrap().message, "b");
    assert_eq!(m.len(), 1);
    assert_eq!(m.push("d".to_string()), Some(()));
    assert_eq!(m.push("e".to_string()), None);
    assert_eq!(m.pop().unwrap().message, "c");
    assert_eq!(m.pop().unwrap().message, "d");
}

#[test]
fn set_capacity_zero_lifts_the_bound() {
    let mut m = LogMetric::with_labels(Arc::new(conf(&["one"], 1)), &["1"]);
    assert_eq!(m.push("a".to_string()), Some(()));
    assert_eq!(m.push("b".to_string()), None);
    m.set_capacity(0);
    assert_eq!(m.push("b".to_string()), Some(()));
    assert_eq!(m.push("c".to_string()), Some(()));
    assert_eq!(m.len(), 3);
}

#[test]
fn message_is_stamped_with_a_time_in_range() {
    let before = EpochTime::now();
    let message = LogMessage::from("hello".to_string());
    let after = EpochTime::now();
    assert_eq!(message.message, "hello");
    assert!(before.secs() <= message.time.secs());
    assert!(message.time.secs() <= after.secs());
    assert!(message.time.subsec_nanos() < 1_000_000_000);
    // The clock of a machine that runs this reads later than the year 2020.
    assert!(message.time.secs() > 1_577_836_800);
}

#[test]
fn container_makes_one_queue_per_label_values() {
    let mut c = LogContainer::with_config(conf(&["one", "two"], 2));
    assert_eq!(c.values().len(), 0);
    c.get(&["1", "2"]).push("a".to_string());
    assert_eq!(c.values().len(), 1);
    c.get(&["1", "2"]).push("b".to_string());
    assert_eq!(c.values().len(), 1);
    assert_eq!(c.values()[0].len(), 2);
    c.get(&["2", "1"]).push("c".to_string());
    assert_eq!(c.values().len(), 2);
    assert_eq!(c.values()[0].labels(), &vec!["1".to_string(), "2".to_string()]);
    assert_eq!(c.values()[1].labels(), &vec!["2".to_string(), "1".to_string()]);
    assert_eq!(c.values()[1].len(), 1);
    assert_eq!(c.get(&["1", "2"]).pop().unwrap().message, "a");
}

#[test]
fn container_queue_takes_the_default_capacity() {
    let mut c = LogContainer::with_config(conf(&["one"], 1));
    let m = c.get(&["x"]);
    assert_eq!(m.push("a".to_string()), Some(()));
    assert_eq!(m.push("b".to_string()), None);
    assert_eq!(m.config().get_default_capacity(), 1);
}

#[test]
fn container_sets_capacity_for_all() {
    let mut c = LogContainer::with_config(conf(&["one"], 1));
    c.get(&["x"]).push("a".to_string());
    c.get(&["y"]).push("b".to_string());
    assert_eq!(c.get(&["x"]).push("a2".to_string()), None);
    c.set_capacity_for_all(2);
    assert_eq!(c.get(&["x"]).push("a2".to_string()), Some(()));
    assert_eq!(c.get(&["y"]).push("b2".to_string()), Some(()));
    assert_eq!(c.get(&["x"]).push("a3".to_string()), None);
    assert_eq!(c.get(&["y"]).push("b3".to_string()), None);
    // A queue made afterwards starts with the default of the configuration.
    assert_eq!(c.get(&["z"]).push("c".to_string()), Some(()));
    assert_eq!(c.get(&["z"]).push("c2".to_string()), None);
}

#[test]
fn container_map_visits_in_order_of_making() {
    let mut c = LogContainer::with_config(conf(&["one"], 0));
    c.get(&["x"]).push("a".to_string());
    c.get(&["y"]);
    c.get(&["z"]).push("b".to_string());
    c.get(&["z"]).push("c".to_string());
    let lens = c.map(|m| m.len());
    assert_eq!(lens, vec![1, 0, 2]);
    let firsts = c.map(|m| m.pop().map(|message| message.message));
    assert_eq!(firsts, vec![Some("a".to_string()), None, Some("b".to_string())]);
    assert_eq!(c.map(|m| m.len()), vec![0, 0, 1]);
}

#[test]
fn registry_create_refuses_a_second_container() {
    let mut log = Log::new();
    assert!(log.create(conf(&["one"], 1)).is_some());
    assert!(log.create(conf(&["one"], 5)).is_none());
    assert!(log.create(conf(&["two"], 1)).is_some());
    // The container of the first configuration is the one that stays.
    let m = log.get(conf(&["one"], 9)).get(&["x"]);
    assert_eq!(m.push("a".to_string()), Some(()));
    assert_eq!(m.push("b".to_string()), None);
}

#[test]
fn registry_resolves_equal_names_to_one_container() {
    let mut log = Log::new();
    log.get(LogMetricConfBuilder::new().add_const_label("job", "x").add_labels(&["a", "b"]).build())
        .get(&["1", "2"])
        .push("first".to_string());
    let again = log
        .get(LogMetricConfBuilder::new().add_const_label("job", "y").add_label("a").add_label("b").build());
    assert_eq!(again.values().len(), 1);
    let m = again.get(&["1", "2"]);
    assert_eq!(m.len(), 1);
    assert_eq!(m.pop().unwrap().message, "first");
    assert_eq!(log.map(|m| m.len()), vec![0]);
}

#[test]
fn registry_map_flattens_container_after_container() {
    let mut log = Log::new();
    log.get(conf(&["one"], 0)).get(&["a"]).push("1".to_string());
    log.get(conf(&["two"], 0)).get(&["b"]);
    log.get(conf(&["one"], 0)).get(&["c"]).push("2".to_string());
    log.get(conf(&["one"], 0)).get(&["c"]).push("3".to_string());
    let seen = log.map(|m| (m.labels()[0].clone(), m.len()));
    assert_eq!(
        seen,
        vec![("a".to_string(), 1), ("c".to_string(), 2), ("b".to_string(), 0)]
    );
    assert!(Log::new().map(|m| m.len()).is_empty());
}

#[test]
fn fingerprint_does_not_see_where_strings_end() {
    assert_eq!(labels_fingerprint(&["ab", "c"]), labels_fingerprint(&["a", "bc"]));
    assert_eq!(labels_fingerprint(&["abc"]), labels_fingerprint(&["", "abc", ""]));
    // So two label sets with the same letters share one queue: the first one made.
    let mut c = LogContainer::with_config(conf(&["one", "two"], 0));
    c.get(&["ab", "c"]).push("x".to_string());
    let again = c.get(&["a", "bc"]);
    assert_eq!(again.len(), 1);
    assert_eq!(again.labels(), &vec!["ab".to_string(), "c".to_string()]);
    assert_eq!(c.values().len(), 1);
}

#[test]
fn push_message_keeps_the_time_it_is_given() {
    let mut m = LogMetric::with_labels(Arc::new(conf(&["one"], 2)), &["1"]);
    let early = EpochTime::new(1, 2).unwrap();
    let late = EpochTime::new(1_600_000_000, 999_999_999).unwrap();
    assert_eq!(m.push_message(LogMessage { time: late, message: "late".to_string() }), Some(()));
    assert_eq!(m.push_message(LogMessage { time: early, message: "early".to_string() }), Some(()));
    assert_eq!(m.push_message(LogMessage { time: early, message: "more".to_string() }), None);
    let first = m.pop().unwrap();
    assert_eq!((first.time.secs(), first.time.subsec_nanos()), (1_600_000_000, 999_999_999));
    assert_eq!(first.message, "late");
    let second = m.pop().unwrap();
    assert_eq!((second.time.secs(), second.time.subsec_nanos()), (1, 2));
    assert_eq!(second.message, "early");
    assert!(m.pop().is_none());
}
