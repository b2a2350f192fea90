//! Admission: whether this node should offer to run a job. Both decisions
//! read their inputs and touch nothing.

use crate::btypes::RunCommandRequest;
use crate::btypes::RunCommandRequestView;
use crate::btypes::Resources;
use crate::btypes::NETWORK_NONE;
use vstd::prelude::*;
use vstd::string::StringExecFns;

verus! {

/// What the node can give a job at best: its resources, and whether jobs
/// may use a network at all.
#[derive(Clone, Copy, Debug, PartialEq, Eq, Structural)]
pub struct Capability {
    pub resources: Resources,
    pub networking: bool,
}

/// What a job asks of the node.
#[derive(Clone, Copy, Debug, PartialEq, Eq, Structural)]
pub struct BidRequest {
    pub resources: Resources,
    pub network: i32,
}

/// The outcome of an admission decision and the reason for it.
#[derive(Clone, Copy, Debug, PartialEq, Eq, Structural)]
pub enum BidReason {
    Accepted,
    InsufficientCpu,
    InsufficientMemory,
    InsufficientDisk,
    InsufficientGpu,
    NetworkUnavailable,
}

/// The answer to a bid: whether to offer, and why.
#[derive(Clone, Copy, Debug, PartialEq, Eq, Structural)]
pub struct BidResponse {
    pub should_bid: bool,
    pub reason: BidReason,
}

/// No resources at all.
pub open spec fn no_resources() -> Resources {
    Resources { cpu_millis: 0, memory: 0, disk: 0, gpu: 0 }
}

/// What a job asks for, read from the job itself: nothing where it names
/// no resources, no network where it names none.
pub open spec fn demand_of(job: RunCommandRequestView) -> BidRequest {
    BidRequest {
        resources: match job.resources {
            Some(r) => r,
            None => no_resources(),
        },
        network: match job.network {
            Some(n) => n.kind as i32,
            None => NETWORK_NONE,
        },
    }
}

/// The decision: the first resource of which the job asks more than is
/// available, in the order processor, memory, disk, devices; then the
/// network; else acceptance.
pub open spec fn verdict(bid: BidRequest, available: Resources, networking: bool) -> BidReason {
    if bid.resources.cpu_millis > available.cpu_millis {
        BidReason::InsufficientCpu
    } else if bid.resources.memory > available.memory {
        BidReason::InsufficientMemory
    } else if bid.resources.disk > available.disk {
        BidReason::InsufficientDisk
    } else if bid.resources.gpu > available.gpu {
        BidReason::InsufficientGpu
    } else if bid.network != NETWORK_NONE && !networking {
        BidReason::NetworkUnavailable
    } else {
        BidReason::Accepted
    }
}

/// What is left of `total` once `used` is taken; nothing where more is used
/// than there is.
pub open spec fn left(total: u64, used: u64) -> u64 {
    if used >= total {
        0
    } else {
        (total - used) as u64
    }
}

/// The resources that are still free on a node.
pub open spec fn remaining(capability: Resources, usage: Resources) -> Resources {
    Resources {
        cpu_millis: left(capability.cpu_millis, usage.cpu_millis),
        memory: left(capability.memory, usage.memory),
        disk: left(capability.disk, usage.disk),
        gpu: left(capability.gpu, usage.gpu),
    }
}

/// The answer that carries `reason`.
pub open spec fn answer(reason: BidReason) -> BidResponse {
    BidResponse { should_bid: reason is Accepted, reason }
}

impl BidReason {
    /// The reason in words.
    pub open spec fn text(self) -> Seq<char> {
        match self {
            BidReason::Accepted => "accepted"@,
            BidReason::InsufficientCpu => "insufficient cpu"@,
            BidReason::InsufficientMemory => "insufficient memory"@,
            BidReason::InsufficientDisk => "insufficient disk"@,
            BidReason::InsufficientGpu => "insufficient gpu"@,
            BidReason::NetworkUnavailable => "network unavailable"@,
        }
    }

    /// The reason in words.
    pub fn message(&self) -> (s: String)
        ensures
            s@ == self.text(),
    {
        match self {
            BidReason::Accepted => String::from_str("accepted"),
            BidReason::InsufficientCpu => String::from_str("insufficient cpu"),
            BidReason::InsufficientMemory => String::from_str("insufficient memory"),
            BidReason::InsufficientDisk => String::from_str("insufficient disk"),
            BidReason::InsufficientGpu => String::from_str("insufficient gpu"),
            BidReason::NetworkUnavailable => String::from_str("network unavailable"),
        }
    }
}

impl BidRequest {
    /// What `job` asks of the node.
    pub fn of_job(job: &RunCommandRequest) -> (bid: Self)
        ensures
            bid == demand_of(job@),
    {
        let resources = match job.resources {
            Some(r) => r,
            None => Resources { cpu_millis: 0, memory: 0, disk: 0, gpu: 0 },
        };
        let network = match &job.network {
            Some(n) => n.kind,
            None => NETWORK_NONE,
        };
        BidRequest { resources, network }
    }
}

/// The decision for `bid` where `available` is free.
fn decide(bid: &BidRequest, available: &Resources, networking: bool) -> (r: BidResponse)
    ensures
        r == answer(verdict(*bid, *available, networking)),
{
    let reason = if bid.resources.cpu_millis > available.cpu_millis {
        BidReason::InsufficientCpu
    } else if bid.resources.memory > available.memory {
        BidReason::InsufficientMemory
    } else if bid.resources.disk > available.disk {
        BidReason::InsufficientDisk
    } else if bid.resources.gpu > available.gpu {
        BidReason::InsufficientGpu
    } else if bid.network != NETWORK_NONE && !networking {
        BidReason::NetworkUnavailable
    } else {
        BidReason::Accepted
    };
    let should_bid = match reason {
        BidReason::Accepted => true,
        _ => false,
    };
    BidResponse { should_bid, reason }
}

/// Whether to offer to run a job, by what the node can give at best.
pub fn should_bid(bid: &BidRequest, capability: &Capability) -> (r: BidResponse)
    ensures
        r == answer(verdict(*bid, capability.resources, capability.networking)),
{
    decide(bid, &capability.resources, capability.networking)
}

/// Whether to offer to run a job, by what the node has free now: what it can
/// give at best, less what is in use.
pub fn should_bid_based_on_usage(bid: &BidRequest, capability: &Capability, usage: &Resources) -> (r:
    BidResponse)
    ensures
        r == answer(
            verdict(*bid, remaining(capability.resources, *usage), capability.networking),
        ),
{
    let free = Resources {
        cpu_millis: capability.resources.cpu_millis.saturating_sub(usage.cpu_millis),
        memory: capability.resources.memory.saturating_sub(usage.memory),
        disk: capability.resources.disk.saturating_sub(usage.disk),
        gpu: capability.resources.gpu.saturating_sub(usage.gpu),
    };
    decide(bid, &free, capability.networking)
}

/// The decision depends on the bid and the capability alone: equal inputs
/// give equal answers.
pub proof fn lemma_should_bid_deterministic(
    bid1: BidRequest,
    capability1: Capability,
    bid2: BidRequest,
    capability2: Capability,
)
    requires
        bid1 == bid2,
        capability1 == capability2,
    ensures
        answer(verdict(bid1, capability1.resources, capability1.networking)) == answer(
            verdict(bid2, capability2.resources, capability2.networking),
        ),
{
}

/// A job that is accepted by what is free is also accepted by what the node
/// can give at best; where nothing is in use the two decisions agree.
pub proof fn lemma_usage_is_stricter(bid: BidRequest, capability: Capability, usage: Resources)
    ensures
        verdict(bid, remaining(capability.resources, usage), capability.networking)
            is Accepted ==> verdict(bid, capability.resources, capability.networking) is Accepted,
        usage == no_resources() ==> verdict(
            bid,
            remaining(capability.resources, usage),
            capability.networking,
        ) == verdict(bid, capability.resources, capability.networking),
{
}

} // verus!
