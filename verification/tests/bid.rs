use python_executor::bid::should_bid;
use python_executor::bid::should_bid_based_on_usage;
use python_executor::bid::BidReason;
use python_executor::bid::BidRequest;
use python_executor::bid::Capability;
use python_executor::btypes::NetworkConfig;
use python_executor::btypes::Resources;
use python_executor::btypes::RunCommandRequest;
use python_executor::btypes::NETWORK_BRIDGE;
use python_executor::btypes::NETWORK_NONE;

fn res(cpu: u64, memory: u64, disk: u64, gpu: u64) -> Resources {
    Resources { cpu_millis: cpu, memory, disk, gpu }
}

fn node() -> Capability {
    Capability { resources: res(4000, 1000, 500, 1), networking: false }
}

fn bid(cpu: u64, memory: u64, disk: u64, gpu: u64) -> BidRequest {
    BidRequest { resources: res(cpu, memory, disk, gpu), network: NETWORK_NONE }
}

#[test]
fn accepts_what_fits() {
    let r = should_bid(&bid(4000, 1000, 500, 1), &node());
    assert!(r.should_bid);
    assert_eq!(r.reason, BidReason::Accepted);
    let r = should_bid(&bid(0, 0, 0, 0), &node());
    assert!(r.should_bid);
}

#[test]
fn declines_by_the_first_resource_that_does_not_fit() {
    assert_eq!(should_bid(&bid(4001, 2000, 501, 2), &node()).reason, BidReason::InsufficientCpu);
    assert_eq!(should_bid(&bid(4000, 1001, 501, 2), &node()).reason, BidReason::InsufficientMemory);
    assert_eq!(should_bid(&bid(4000, 1000, 501, 2), &node()).reason, BidReason::InsufficientDisk);
    assert_eq!(should_bid(&bid(4000, 1000, 500, 2), &node()).reason, BidReason::InsufficientGpu);
    assert!(!should_bid(&bid(4000, 1000, 500, 2), &node()).should_bid);
}

#[test]
fn declines_network_where_the_node_has_none() {
    let mut b = bid(1, 1, 1, 0);
    b.network = NETWORK_BRIDGE;
    let r = should_bid(&b, &node());
    assert!(!r.should_bid);
    assert_eq!(r.reason, BidReason::NetworkUnavailable);
    let mut n = node();
    n.networking = true;
    assert!(should_bid(&b, &n).should_bid);
}

#[test]
fn usage_can_decline_what_capability_allows() {
    let b = bid(3000, 100, 100, 0);
    assert!(should_bid(&b, &node()).should_bid);
    let r = should_bid_based_on_usage(&b, &node(), &res(2000, 0, 0, 0));
    assert!(!r.should_bid);
    assert_eq!(r.reason, BidReason::InsufficientCpu);
    let r = should_bid_based_on_usage(&b, &node(), &res(1000, 900, 400, 1));
    assert!(r.should_bid);
    let r = should_bid_based_on_usage(&b, &node(), &res(1000, 901, 400, 1));
    assert_eq!(r.reason, BidReason::InsufficientMemory);
}

#[test]
fn usage_above_capability_leaves_nothing() {
    let r = should_bid_based_on_usage(&bid(0, 0, 0, 0), &node(), &res(u64::MAX, u64::MAX, 9999, 5));
    assert!(r.should_bid);
    let r = should_bid_based_on_usage(&bid(1, 0, 0, 0), &node(), &res(u64::MAX, 0, 0, 0));
    assert_eq!(r.reason, BidReason::InsufficientCpu);
}

#[test]
fn no_usage_decides_as_capability_does() {
    for b in [bid(4000, 1000, 500, 1), bid(4001, 0, 0, 0), bid(0, 0, 0, 2)] {
        assert_eq!(should_bid(&b, &node()), should_bid_based_on_usage(&b, &node(), &res(0, 0, 0, 0)));
    }
}

#[test]
fn decision_is_deterministic() {
    let b = bid(123, 456, 78, 0);
    let first = should_bid(&b, &node());
    for _ in 0..10 {
        assert_eq!(should_bid(&b, &node()), first);
    }
}

#[test]
fn demand_of_a_job() {
    let mut j = RunCommandRequest::new(String::from("x"));
    assert_eq!(BidRequest::of_job(&j), bid(0, 0, 0, 0));
    j.resources = Some(res(1, 2, 3, 4));
    j.network = Some(NetworkConfig { kind: NETWORK_BRIDGE, domains: vec![] });
    let b = BidRequest::of_job(&j);
    assert_eq!(b.resources, res(1, 2, 3, 4));
    assert_eq!(b.network, NETWORK_BRIDGE);
}

#[test]
fn reasons_in_words() {
    assert_eq!(BidReason::Accepted.message(), "accepted");
    assert_eq!(BidReason::InsufficientCpu.message(), "insufficient cpu");
    assert_eq!(BidReason::InsufficientMemory.message(), "insufficient memory");
    assert_eq!(BidReason::InsufficientDisk.message(), "insufficient disk");
    assert_eq!(BidReason::InsufficientGpu.message(), "insufficient gpu");
    assert_eq!(BidReason::NetworkUnavailable.message(), "network unavailable");
}
