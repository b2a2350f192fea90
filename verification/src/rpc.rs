//! The methods of the executor protocol, from message to message.

use crate::bid::answer;
use crate::bid::demand_of;
use crate::bid::remaining;
use crate::bid::should_bid;
use crate::bid::should_bid_based_on_usage;
use crate::bid::verdict;
use crate::bid::BidRequest;
use crate::codec::bid_text;
use crate::codec::decode_job;
use crate::codec::decode_resources;
use crate::codec::decoded_job;
use crate::codec::decoded_resources;
use crate::codec::encode_bid;
use crate::codec::encode_response;
use crate::codec::response_text;
use crate::executor::CancelCommandRequest;
use crate::executor::CancelCommandResponse;
use crate::executor::IsInstalledRequest;
use crate::executor::IsInstalledResponse;
use crate::executor::OutputStreamRequest;
use crate::executor::OutputStreamResponse;
use crate::executor::RunCommandRequest;
use crate::executor::RunCommandResponse;
use crate::executor::ShouldBidBasedOnUsageRequest;
use crate::executor::ShouldBidRequest;
use crate::executor::ShouldBidResponse;
use crate::executor::StartResponse;
use crate::executor::WaitRequest;
use crate::output::Delivery;
use crate::output::DeliveryView;
use crate::record::Action;
use crate::record::Event;
use crate::record::EventView;
use crate::service::ExecutorService;
use crate::service::StartError;
use crate::validate::acceptable;
use vstd::prelude::*;
use vstd::utf8::encode_utf8;

verus! {

/// Why a call was turned down.
#[derive(Clone, Copy, Debug, PartialEq, Eq, Structural)]
pub enum Status {
    /// The payload is no job, or the job fails validation.
    InvalidArgument,
    /// An execution with the job's identifier is known already.
    AlreadyExists,
    /// No execution with this identifier is known.
    NotFound,
}

/// What one poll of a stream of output gives.
#[derive(Debug)]
pub enum StreamItem {
    /// The next message of the stream.
    Message(OutputStreamResponse),
    /// Nothing new yet; more may come.
    Pending,
    /// The stream has ended.
    End,
}

impl ExecutorService {
    /// What a start or a run answers for `payload`, and the service after it.
    pub open spec fn registered(
        before: crate::service::ServiceView,
        payload: Seq<u8>,
        now: nat,
        after: crate::service::ServiceView,
        status: Option<Status>,
    ) -> bool {
        match decoded_job(payload) {
            None => after == before && status == Some(Status::InvalidArgument),
            Some(job) => {
                &&& after == before.submit(job, now)
                &&& status == if !acceptable(job) {
                    Some(Status::InvalidArgument)
                } else if before.knows(job.execution_id) {
                    Some(Status::AlreadyExists)
                } else {
                    None
                }
            },
        }
    }

    /// Decodes the job in `payload`, validates it and, where its identifier
    /// is new, adds a pending record for it. Returns the identifier.
    fn register(&mut self, payload: &[u8], now: u64) -> (r: Result<String, Status>)
        requires
            old(self).wf(),
        ensures
            final(self).wf(),
            Self::registered(
                old(self)@,
                payload@,
                now as nat,
                final(self)@,
                match r {
                    Ok(_) => None,
                    Err(s) => Some(s),
                },
            ),
            r matches Ok(id) ==> decoded_job(payload@) matches Some(job) && id@
                == job.execution_id,
    {
        let job = match decode_job(payload) {
            Some(job) => job,
            None => {
                return Err(Status::InvalidArgument);
            },
        };
        let id = job.execution_id.clone();
        let ghost model = job@;
        match self.submit(job, now) {
            Ok(()) => Ok(id),
            Err(StartError::Duplicate) => Err(Status::AlreadyExists),
            Err(StartError::Invalid(e)) => {
                proof {
                    crate::validate::lemma_rejection_unique(model, e, e);
                }
                Err(Status::InvalidArgument)
            },
        }
    }

    /// Start: accepts the job in the request without waiting for it to run.
    /// The payload must be a job that passes validation and whose identifier
    /// is new; the job then has a pending record, and nothing was asked of
    /// the backend. A request that is turned down changes nothing. Returns
    /// the acknowledgement and the identifier of the execution.
    pub fn start(&mut self, request: &RunCommandRequest, now: u64) -> (r: Result<
        (StartResponse, String),
        Status,
    >)
        requires
            old(self).wf(),
        ensures
            final(self).wf(),
            Self::registered(
                old(self)@,
                request.params@,
                now as nat,
                final(self)@,
                match r {
                    Ok(_) => None,
                    Err(s) => Some(s),
                },
            ),
            r matches Ok(accepted) ==> decoded_job(request.params@) matches Some(job)
                && accepted.1@ == job.execution_id,
    {
        match self.register(request.params.as_slice(), now) {
            Ok(id) => Ok((StartResponse {  }, id)),
            Err(s) => Err(s),
        }
    }

    /// Run: accepts the job in the request as a start does, and returns the
    /// identifier under which its result is to be waited for.
    pub fn run(&mut self, request: &RunCommandRequest, now: u64) -> (r: Result<String, Status>)
        requires
            old(self).wf(),
        ensures
            final(self).wf(),
            Self::registered(
                old(self)@,
                request.params@,
                now as nat,
                final(self)@,
                match r {
                    Ok(_) => None,
                    Err(s) => Some(s),
                },
            ),
            r matches Ok(id) ==> decoded_job(request.params@) matches Some(job) && id@
                == job.execution_id,
    {
        self.register(request.params.as_slice(), now)
    }

    /// Wait: the result of an execution once it has ended, as an encoded
    /// payload; nothing yet while it has not. An unknown execution is an
    /// error. Nothing is changed, so that asking again gives the same.
    pub fn wait(&self, request: &WaitRequest) -> (r: Result<Option<RunCommandResponse>, Status>)
        requires
            self.wf(),
        ensures
            match self@.outcome(request.execution_id@) {
                None => r == Err::<Option<RunCommandResponse>, Status>(Status::NotFound),
                Some(None) => r matches Ok(None),
                Some(Some(result)) => r matches Ok(Some(response)) && response.params@
                    == encode_utf8(response_text(result)),
            },
    {
        match self.result_of(&request.execution_id) {
            None => Err(Status::NotFound),
            Some(None) => Ok(None),
            Some(Some(result)) => Ok(Some(RunCommandResponse { params: encode_response(&result) })),
        }
    }

    /// Cancel: asks for an execution to be cancelled and returns what the
    /// backend is to do for that. It always succeeds; for an execution that
    /// is unknown or has ended it changes nothing.
    pub fn cancel(&mut self, request: &CancelCommandRequest, now: u64) -> (r: (
        CancelCommandResponse,
        Action,
    ))
        requires
            old(self).wf(),
        ensures
            final(self).wf(),
            final(self)@ == old(self)@.dispatch(
                request.execution_id@,
                EventView::Cancel,
                now as nat,
            ),
            r.1@ == old(self)@.reaction(request.execution_id@, EventView::Cancel),
            !old(self)@.knows(request.execution_id@) || old(self)@.record(
                request.execution_id@,
            ).state.terminal() ==> final(self)@ == old(self)@ && r.1 is Idle,
    {
        proof {
            if !old(self)@.knows(request.execution_id@) || old(self)@.record(
                request.execution_id@,
            ).state.terminal() {
                old(self).lemma_wf_valid();
                crate::service::lemma_cancel_is_idle(
                    old(self)@,
                    request.execution_id@,
                    now as nat,
                );
            }
        }
        let action = self.dispatch(&request.execution_id, Event::Cancel, now);
        (CancelCommandResponse {  }, action)
    }

    /// IsInstalled: the executor can always be used.
    pub fn is_installed(&self, request: &IsInstalledRequest) -> (r: IsInstalledResponse)
        ensures
            r.installed,
    {
        IsInstalledResponse { installed: true }
    }

    /// ShouldBid: decides on the job in the request by what the node can
    /// give at best. Nothing is changed or set aside.
    pub fn should_bid(&self, request: &ShouldBidRequest) -> (r: Result<ShouldBidResponse, Status>)
        ensures
            match decoded_job(request.bid_request@) {
                None => r matches Err(Status::InvalidArgument),
                Some(job) => r matches Ok(response) && response.bid_response@ == encode_utf8(
                    bid_text(
                        answer(
                            verdict(
                                demand_of(job),
                                self@.capability.resources,
                                self@.capability.networking,
                            ),
                        ),
                    ),
                ),
            },
    {
        match decode_job(request.bid_request.as_slice()) {
            None => Err(Status::InvalidArgument),
            Some(job) => {
                let capability = self.capability();
                let decision = should_bid(&BidRequest::of_job(&job), &capability);
                Ok(ShouldBidResponse { bid_response: encode_bid(&decision) })
            },
        }
    }

    /// ShouldBidBasedOnUsage: decides on the job in the request by what the
    /// node has free, given what is in use. Nothing is changed or set aside.
    pub fn should_bid_based_on_usage(&self, request: &ShouldBidBasedOnUsageRequest) -> (r: Result<
        ShouldBidResponse,
        Status,
    >)
        ensures
            match (decoded_job(request.bid_request@), decoded_resources(request.usage@)) {
                (Some(job), Some(usage)) => r matches Ok(response) && response.bid_response@
                    == encode_utf8(
                    bid_text(
                        answer(
                            verdict(
                                demand_of(job),
                                remaining(self@.capability.resources, usage),
                                self@.capability.networking,
                            ),
                        ),
                    ),
                ),
                _ => r matches Err(Status::InvalidArgument),
            },
    {
        let job = match decode_job(request.bid_request.as_slice()) {
            Some(job) => job,
            None => {
                return Err(Status::InvalidArgument);
            },
        };
        let usage = match decode_resources(request.usage.as_slice()) {
            Some(usage) => usage,
            None => {
                return Err(Status::InvalidArgument);
            },
        };
        let capability = self.capability();
        let decision = should_bid_based_on_usage(&BidRequest::of_job(&job), &capability, &usage);
        Ok(ShouldBidResponse { bid_response: encode_bid(&decision) })
    }

    /// GetOutputStream: opens a stream of the output of an execution and
    /// returns the number of its reader. With `history` the stream begins
    /// with what the log holds, else with what is written next; with
    /// `follow` it goes on as the log grows, else it ends where the log ends
    /// now. An unknown execution is an error.
    pub fn get_output_stream(&mut self, request: &OutputStreamRequest) -> (r: Result<usize, Status>)
        requires
            old(self).wf(),
        ensures
            final(self).wf(),
            final(self)@ == old(self)@.open_stream(
                request.execution_id@,
                request.history,
                request.follow,
            ),
            match r {
                Ok(reader) => old(self)@.knows(request.execution_id@) && reader == old(
                    self,
                )@.record(request.execution_id@).output.subscribers.len(),
                Err(s) => s == Status::NotFound && !old(self)@.knows(request.execution_id@),
            },
    {
        match self.open_stream(&request.execution_id, request.history, request.follow) {
            Some(reader) => Ok(reader),
            None => Err(Status::NotFound),
        }
    }

    /// The next message of the stream that `get_output_stream` opened for
    /// this request under the number `reader`.
    pub fn next_message(&mut self, request: &OutputStreamRequest, reader: usize) -> (r: StreamItem)
        requires
            old(self).wf(),
        ensures
            final(self).wf(),
            final(self)@ == old(self)@.next_output(request.execution_id@, reader as int),
            match old(self)@.delivery(request.execution_id@, reader as int) {
                DeliveryView::Data(chunk) => r matches StreamItem::Message(m) && m.data@
                    == chunk.data,
                DeliveryView::Pending => r is Pending,
                DeliveryView::Closed => r is End,
            },
    {
        match self.next_output(&request.execution_id, reader) {
            Delivery::Data(chunk) => StreamItem::Message(OutputStreamResponse { data: chunk.data }),
            Delivery::Pending => StreamItem::Pending,
            Delivery::Closed => StreamItem::End,
        }
    }
}

} // verus!
