use volcano::packet::buffer::Stats;
use volcano::stats::Stream;
use volcano::track::audio_observer::AudioObserver;

#[test]
fn parameters_are_clamped() {
    let observer = AudioObserver::new(200, 1000, 150);
    assert_eq!(observer.threshold, 127);
    assert_eq!(observer.interval, 1000);
    assert_eq!(observer.expected, 50);
    assert_eq!(AudioObserver::new(70, 100, 50).expected, 2);
    assert_eq!(AudioObserver::new(70, 100, -5).expected, 0);
}

#[test]
fn active_streams_are_reported_loudest_first() {
    let mut observer = AudioObserver::new(70, 100, 50);
    assert!(observer.is_empty());
    observer.add_stream("stream1".to_owned());
    observer.add_stream("stream2".to_owned());
    observer.add_stream("stream3".to_owned());
    assert!(!observer.is_empty());
    for _ in 0..2 {
        observer.observe("stream1", 50);
    }
    for _ in 0..3 {
        observer.observe("stream2", 50);
    }
    // Too silent
    for _ in 0..5 {
        observer.observe("stream3", 71);
    }
    observer.observe("unknown", 10);
    assert_eq!(observer.calc(), Some(vec!["stream2".to_owned(), "stream1".to_owned()]));
    // Nothing was observed since
    assert_eq!(observer.calc(), None);
}

#[test]
fn unchanged_activity_is_not_reported_again() {
    let mut observer = AudioObserver::new(70, 100, 50);
    observer.add_stream("stream1".to_owned());
    for _ in 0..10 {
        observer.observe("stream1", 50);
    }
    assert_eq!(observer.calc(), Some(vec!["stream1".to_owned()]));
    for _ in 0..10 {
        observer.observe("stream1", 50);
    }
    assert_eq!(observer.calc(), None);
}

#[test]
fn equal_totals_are_ordered_by_their_sums() {
    let mut observer = AudioObserver::new(70, 100, 50);
    observer.add_stream("a".to_owned());
    observer.add_stream("b".to_owned());
    for _ in 0..2 {
        observer.observe("a", 10);
        observer.observe("b", 20);
    }
    assert_eq!(observer.calc(), Some(vec!["b".to_owned(), "a".to_owned()]));
}

#[test]
fn removed_streams_are_not_observed() {
    let mut observer = AudioObserver::new(70, 100, 50);
    observer.add_stream("a".to_owned());
    observer.add_stream("a".to_owned());
    observer.remove_stream("a");
    assert!(observer.is_empty());
    observer.observe("a", 10);
    assert_eq!(observer.calc(), None);
}

#[test]
fn stats_are_told_as_differences() {
    let mut stream = Stream::new(7);
    assert_eq!(stream.ssrc, 7);
    assert_eq!(stream.get_cname(), "");
    stream.set_cname("cname".to_owned());
    assert_eq!(stream.get_cname(), "cname");
    stream.set_drift_in_millis(12);
    assert_eq!(stream.get_drift_in_millis(), 12);

    let first = Stats { last_expected: 10, last_received: 8, packet_count: 8, total_byte: 800 };
    let (has, _) = stream.update_stats(first);
    assert!(!has);
    let second = Stats { last_expected: 20, last_received: 15, packet_count: 15, total_byte: 1500 };
    let (has, diff) = stream.update_stats(second);
    assert!(has);
    assert_eq!(diff.last_expected, 7);
    assert_eq!(diff.packet_count, 7);
    assert_eq!(diff.total_byte, 700);
}
