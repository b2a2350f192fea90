use python_executor::retry::RetryPolicy;

#[test]
fn pauses_double_up_to_the_ceiling() {
    let p = RetryPolicy { max_attempts: 10, base_delay_ms: 100, max_delay_ms: 1000 };
    assert_eq!(p.delay_after(0), Some(0));
    assert_eq!(p.delay_after(1), Some(100));
    assert_eq!(p.delay_after(2), Some(200));
    assert_eq!(p.delay_after(3), Some(400));
    assert_eq!(p.delay_after(4), Some(800));
    assert_eq!(p.delay_after(5), Some(1000));
    assert_eq!(p.delay_after(9), Some(1000));
    assert_eq!(p.delay_after(10), None);
    assert_eq!(p.delay_after(u32::MAX), None);
}

#[test]
fn attempts_are_bounded() {
    let p = RetryPolicy { max_attempts: 3, base_delay_ms: 5, max_delay_ms: 50 };
    assert_eq!(p.delay_after(2), Some(10));
    assert_eq!(p.delay_after(3), None);
    assert_eq!(p.delay_after(4), None);
    let never = RetryPolicy { max_attempts: 0, base_delay_ms: 5, max_delay_ms: 50 };
    assert_eq!(never.delay_after(0), None);
}

#[test]
fn once_means_once() {
    let p = RetryPolicy::once();
    assert_eq!(p.delay_after(0), Some(0));
    assert_eq!(p.delay_after(1), None);
}

#[test]
fn base_above_ceiling_is_cut() {
    let p = RetryPolicy { max_attempts: 5, base_delay_ms: 500, max_delay_ms: 100 };
    assert_eq!(p.delay_after(1), Some(100));
    assert_eq!(p.delay_after(4), Some(100));
}

#[test]
fn no_base_means_no_pause() {
    let p = RetryPolicy { max_attempts: u32::MAX, base_delay_ms: 0, max_delay_ms: 100 };
    assert_eq!(p.delay_after(1), Some(0));
    assert_eq!(p.delay_after(4000000000), Some(0));
}

#[test]
fn large_values_do_not_wrap() {
    let p = RetryPolicy { max_attempts: u32::MAX, base_delay_ms: u64::MAX / 2, max_delay_ms: u64::MAX };
    assert_eq!(p.delay_after(1), Some(u64::MAX / 2));
    assert_eq!(p.delay_after(2), Some(u64::MAX - 1));
    assert_eq!(p.delay_after(3), Some(u64::MAX));
    assert_eq!(p.delay_after(1000), Some(u64::MAX));
    let q = RetryPolicy { max_attempts: 100, base_delay_ms: 1, max_delay_ms: u64::MAX };
    assert_eq!(q.delay_after(64), Some(1 << 63));
    assert_eq!(q.delay_after(65), Some(u64::MAX));
    assert_eq!(q.delay_after(99), Some(u64::MAX));
}
