use python_executor::btypes::OutputLimits;
use python_executor::output::Broadcaster;
use python_executor::output::Delivery;
use python_executor::output::StreamKind;

fn limits(out_file: u64, out_ret: u64, err_file: u64, err_ret: u64) -> OutputLimits {
    OutputLimits {
        max_stdout_file_length: out_file,
        max_stdout_return_length: out_ret,
        max_stderr_file_length: err_file,
        max_stderr_return_length: err_ret,
    }
}

fn data_of(d: Delivery) -> Vec<u8> {
    match d {
        Delivery::Data(c) => c.data,
        other => panic!("expected data, got {:?}", other),
    }
}

#[test]
fn cap_of_ten_keeps_ten_of_twenty_five() {
    let mut b = Broadcaster::new(limits(10, 100, 10, 100));
    let written: Vec<u8> = (0u8..25).collect();
    b.write(StreamKind::Stdout, &written);
    let kept = b.captured(StreamKind::Stdout);
    assert_eq!(kept, (0u8..10).collect::<Vec<u8>>());
    assert!(b.truncated(StreamKind::Stdout));
    assert!(!b.truncated(StreamKind::Stderr));
}

#[test]
fn exactly_the_cap_is_not_truncated() {
    let mut b = Broadcaster::new(limits(10, 100, 10, 100));
    b.write(StreamKind::Stdout, b"0123456789");
    assert_eq!(b.captured(StreamKind::Stdout), b"0123456789".to_vec());
    assert!(!b.truncated(StreamKind::Stdout));
    b.write(StreamKind::Stdout, b"");
    assert!(!b.truncated(StreamKind::Stdout));
    b.write(StreamKind::Stdout, b"x");
    assert!(b.truncated(StreamKind::Stdout));
    assert_eq!(b.captured(StreamKind::Stdout), b"0123456789".to_vec());
}

#[test]
fn truncation_across_several_writes() {
    let mut b = Broadcaster::new(limits(5, 100, 3, 100));
    b.write(StreamKind::Stdout, b"abc");
    b.write(StreamKind::Stderr, b"12");
    b.write(StreamKind::Stdout, b"defg");
    b.write(StreamKind::Stderr, b"3");
    assert_eq!(b.captured(StreamKind::Stdout), b"abcde".to_vec());
    assert_eq!(b.captured(StreamKind::Stderr), b"123".to_vec());
    assert!(b.truncated(StreamKind::Stdout));
    assert!(!b.truncated(StreamKind::Stderr));
    assert_eq!(b.chunk_count(), 4);
}

#[test]
fn streams_are_capped_independently() {
    let mut b = Broadcaster::new(limits(0, 0, 4, 2));
    b.write(StreamKind::Stdout, b"lost");
    b.write(StreamKind::Stderr, b"kept");
    assert_eq!(b.captured(StreamKind::Stdout), Vec::<u8>::new());
    assert!(b.truncated(StreamKind::Stdout));
    assert_eq!(b.captured(StreamKind::Stderr), b"kept".to_vec());
    assert!(!b.truncated(StreamKind::Stderr));
    assert_eq!(b.returned(StreamKind::Stderr), b"ke".to_vec());
    assert_eq!(b.chunk_count(), 1);
}

#[test]
fn returned_is_cut_at_the_return_cap() {
    let mut b = Broadcaster::new(limits(100, 4, 100, 100));
    b.write(StreamKind::Stdout, b"hello world");
    assert_eq!(b.returned(StreamKind::Stdout), b"hell".to_vec());
    assert_eq!(b.captured(StreamKind::Stdout), b"hello world".to_vec());
    assert!(!b.truncated(StreamKind::Stdout));
}

#[test]
fn a_closed_log_takes_nothing() {
    let mut b = Broadcaster::new(limits(10, 10, 10, 10));
    b.write(StreamKind::Stdout, b"one");
    b.close();
    assert!(b.is_closed());
    b.write(StreamKind::Stdout, b"two-and-more-than-ten");
    assert_eq!(b.captured(StreamKind::Stdout), b"one".to_vec());
    assert!(!b.truncated(StreamKind::Stdout));
}

#[test]
fn snapshot_replays_the_whole_log_every_time() {
    let mut b = Broadcaster::new(limits(100, 100, 100, 100));
    b.write(StreamKind::Stdout, b"a");
    b.write(StreamKind::Stderr, b"b");
    b.write(StreamKind::Stdout, b"c");
    b.close();
    for _ in 0..3 {
        let id = b.subscribe(true, false);
        assert_eq!(data_of(b.poll(id)), b"a".to_vec());
        assert_eq!(data_of(b.poll(id)), b"b".to_vec());
        assert_eq!(data_of(b.poll(id)), b"c".to_vec());
        assert!(matches!(b.poll(id), Delivery::Closed));
        assert!(matches!(b.poll(id), Delivery::Closed));
    }
}

#[test]
fn snapshot_of_an_open_log_ends_where_the_log_ended() {
    let mut b = Broadcaster::new(limits(100, 100, 100, 100));
    b.write(StreamKind::Stdout, b"a");
    let id = b.subscribe(true, false);
    b.write(StreamKind::Stdout, b"b");
    assert_eq!(data_of(b.poll(id)), b"a".to_vec());
    assert!(matches!(b.poll(id), Delivery::Closed));
}

#[test]
fn two_followers_see_every_chunk_in_order() {
    let mut b = Broadcaster::new(limits(100, 100, 100, 100));
    b.write(StreamKind::Stdout, b"before");
    let fast = b.subscribe(false, true);
    let slow = b.subscribe(false, true);
    b.write(StreamKind::Stdout, b"1");
    assert_eq!(data_of(b.poll(fast)), b"1".to_vec());
    assert!(matches!(b.poll(fast), Delivery::Pending));
    b.write(StreamKind::Stderr, b"2");
    b.write(StreamKind::Stdout, b"3");
    assert_eq!(data_of(b.poll(fast)), b"2".to_vec());
    assert_eq!(data_of(b.poll(fast)), b"3".to_vec());
    assert!(matches!(b.poll(fast), Delivery::Pending));
    b.close();
    assert!(matches!(b.poll(fast), Delivery::Closed));
    assert_eq!(data_of(b.poll(slow)), b"1".to_vec());
    assert_eq!(data_of(b.poll(slow)), b"2".to_vec());
    assert_eq!(data_of(b.poll(slow)), b"3".to_vec());
    assert!(matches!(b.poll(slow), Delivery::Closed));
}

#[test]
fn history_then_follow() {
    let mut b = Broadcaster::new(limits(100, 100, 100, 100));
    b.write(StreamKind::Stdout, b"old");
    let id = b.subscribe(true, true);
    assert_eq!(data_of(b.poll(id)), b"old".to_vec());
    assert!(matches!(b.poll(id), Delivery::Pending));
    b.write(StreamKind::Stdout, b"new");
    assert_eq!(data_of(b.poll(id)), b"new".to_vec());
}

#[test]
fn no_history_no_follow_closes_at_once() {
    let mut b = Broadcaster::new(limits(100, 100, 100, 100));
    b.write(StreamKind::Stdout, b"old");
    let id = b.subscribe(false, false);
    assert!(matches!(b.poll(id), Delivery::Closed));
}

#[test]
fn unknown_reader_is_closed() {
    let mut b = Broadcaster::new(limits(100, 100, 100, 100));
    assert!(matches!(b.poll(7), Delivery::Closed));
    assert_eq!(b.subscriber_count(), 0);
}

#[test]
fn detached_reader_is_closed_and_others_go_on() {
    let mut b = Broadcaster::new(limits(100, 100, 100, 100));
    let a = b.subscribe(true, true);
    let c = b.subscribe(true, true);
    b.write(StreamKind::Stdout, b"x");
    b.detach(a);
    assert!(matches!(b.poll(a), Delivery::Closed));
    assert_eq!(data_of(b.poll(c)), b"x".to_vec());
    b.detach(99);
    assert_eq!(b.subscriber_count(), 2);
}

#[test]
fn delivered_chunk_names_its_stream() {
    let mut b = Broadcaster::new(limits(100, 100, 100, 100));
    b.write(StreamKind::Stderr, b"oops");
    let id = b.subscribe(true, false);
    match b.poll(id) {
        Delivery::Data(c) => {
            assert_eq!(c.stream, StreamKind::Stderr);
            assert_eq!(c.data, b"oops".to_vec());
        }
        other => panic!("expected data, got {:?}", other),
    }
}

#[test]
fn new_log_is_empty_and_open() {
    let l = limits(1, 2, 3, 4);
    let b = Broadcaster::new(l);
    assert_eq!(b.limits(), l);
    assert!(!b.is_closed());
    assert_eq!(b.chunk_count(), 0);
    assert_eq!(b.captured(StreamKind::Stdout), Vec::<u8>::new());
}
