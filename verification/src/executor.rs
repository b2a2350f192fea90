//! The messages of the executor protocol as they travel, and the paths under
//! which its methods are called.

use vstd::prelude::*;
use vstd::string::StringSliceAdditionalSpecFns;
use vstd::utf8::encode_utf8;

verus! {

/// The acknowledgement of a start.
#[derive(Clone, Copy, Debug, PartialEq, Eq, Structural)]
pub struct StartResponse {}

/// A job, as an encoded payload.
#[derive(Debug)]
pub struct RunCommandRequest {
    pub params: Vec<u8>,
}

/// A result, as an encoded payload.
#[derive(Debug)]
pub struct RunCommandResponse {
    pub params: Vec<u8>,
}

/// The request to cancel an execution.
#[derive(Debug)]
pub struct CancelCommandRequest {
    pub execution_id: String,
}

/// The acknowledgement of a cancellation.
#[derive(Clone, Copy, Debug, PartialEq, Eq, Structural)]
pub struct CancelCommandResponse {}

/// The question whether the executor can be used.
#[derive(Clone, Copy, Debug, PartialEq, Eq, Structural)]
pub struct IsInstalledRequest {}

/// The answer to the question whether the executor can be used.
#[derive(Clone, Copy, Debug, PartialEq, Eq, Structural)]
pub struct IsInstalledResponse {
    pub installed: bool,
}

/// A bid to decide on, as an encoded job.
#[derive(Debug)]
pub struct ShouldBidRequest {
    pub bid_request: Vec<u8>,
}

/// A bid to decide on by what is in use, both as encoded payloads.
#[derive(Debug)]
pub struct ShouldBidBasedOnUsageRequest {
    pub bid_request: Vec<u8>,
    pub usage: Vec<u8>,
}

/// The answer to a bid, as an encoded payload.
#[derive(Debug)]
pub struct ShouldBidResponse {
    pub bid_response: Vec<u8>,
}

/// The request to read the output of an execution.
#[derive(Debug)]
pub struct OutputStreamRequest {
    pub execution_id: String,
    pub history: bool,
    pub follow: bool,
}

/// One chunk of output.
#[derive(Debug)]
pub struct OutputStreamResponse {
    pub data: Vec<u8>,
}

/// The request to wait for an execution.
#[derive(Debug)]
pub struct WaitRequest {
    pub execution_id: String,
}

/// A method of the executor protocol.
#[derive(Clone, Copy, Debug, PartialEq, Eq, Structural)]
pub enum Method {
    Run,
    Start,
    Wait,
    Cancel,
    IsInstalled,
    ShouldBid,
    ShouldBidBasedOnUsage,
    GetOutputStream,
}

/// The status with which a call to an unknown path is answered.
pub const UNIMPLEMENTED: u32 = 12;

impl Method {
    /// The path under which the method is called.
    pub open spec fn path(self) -> Seq<char> {
        match self {
            Method::Run => "/executor.Executor/Run"@,
            Method::Start => "/executor.Executor/Start"@,
            Method::Wait => "/executor.Executor/Wait"@,
            Method::Cancel => "/executor.Executor/Cancel"@,
            Method::IsInstalled => "/executor.Executor/IsInstalled"@,
            Method::ShouldBid => "/executor.Executor/ShouldBid"@,
            Method::ShouldBidBasedOnUsage => "/executor.Executor/ShouldBidBasedOnUsage"@,
            Method::GetOutputStream => "/executor.Executor/GetOutputStream"@,
        }
    }

    /// Whether the method answers with a stream of messages.
    pub open spec fn streams(self) -> bool {
        self is Wait || self is GetOutputStream
    }

    /// Whether the method answers with a stream of messages.
    pub fn is_streaming(&self) -> (s: bool)
        ensures
            s == self.streams(),
    {
        match self {
            Method::Wait | Method::GetOutputStream => true,
            _ => false,
        }
    }
}

/// Whether two texts are the same.
pub fn same_text(a: &str, b: &str) -> (r: bool)
    ensures
        r == (a@ == b@),
{
    let x = a.as_bytes();
    let y = b.as_bytes();
    proof {
        vstd::utf8::encode_utf8_decode_utf8(a@);
        vstd::utf8::encode_utf8_decode_utf8(b@);
    }
    if x.len() != y.len() {
        return false;
    }
    let mut i: usize = 0;
    while i < x.len()
        invariant
            x@.len() == y@.len(),
            0 <= i <= x@.len(),
            x@ == encode_utf8(a@),
            y@ == encode_utf8(b@),
            forall|k: int| 0 <= k < i ==> x@[k] == y@[k],
        decreases x.len() - i,
    {
        if x[i] != y[i] {
            return false;
        }
        i = i + 1;
    }
    assert(x@ =~= y@);
    true
}

/// The method that is called under `path`; none where the path is not one
/// of the protocol's.
pub fn route(path: &str) -> (r: Option<Method>)
    ensures
        match r {
            Some(m) => path@ == m.path(),
            None => forall|m: Method| path@ != #[trigger] m.path(),
        },
{
    if same_text(path, "/executor.Executor/Run") {
        Some(Method::Run)
    } else if same_text(path, "/executor.Executor/Start") {
        Some(Method::Start)
    } else if same_text(path, "/executor.Executor/Wait") {
        Some(Method::Wait)
    } else if same_text(path, "/executor.Executor/Cancel") {
        Some(Method::Cancel)
    } else if same_text(path, "/executor.Executor/IsInstalled") {
        Some(Method::IsInstalled)
    } else if same_text(path, "/executor.Executor/ShouldBid") {
        Some(Method::ShouldBid)
    } else if same_text(path, "/executor.Executor/ShouldBidBasedOnUsage") {
        Some(Method::ShouldBidBasedOnUsage)
    } else if same_text(path, "/executor.Executor/GetOutputStream") {
        Some(Method::GetOutputStream)
    } else {
        None
    }
}

/// No two methods share a path.
pub proof fn lemma_paths_differ(a: Method, b: Method)
    requires
        a != b,
    ensures
        a.path() != b.path(),
{
    reveal_strlit("/executor.Executor/Run");
    reveal_strlit("/executor.Executor/Start");
    reveal_strlit("/executor.Executor/Wait");
    reveal_strlit("/executor.Executor/Cancel");
    reveal_strlit("/executor.Executor/IsInstalled");
    reveal_strlit("/executor.Executor/ShouldBid");
    reveal_strlit("/executor.Executor/ShouldBidBasedOnUsage");
    reveal_strlit("/executor.Executor/GetOutputStream");
    if a.path().len() == b.path().len() {
        assert(a.path()[19] != b.path()[19]);
    }
}

} // verus!
