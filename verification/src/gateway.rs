//! The decisions of the gateway around an execution: how a request is
//! answered, how hooks are counted, and the keys of the rate limiter.

use crate::operation::OperationType;
use crate::text::{concat2, concat3, decimal_of, decimal_text};
use crate::validation::ErrorCode;
use ulid::Ulid;
use vstd::prelude::*;

verus! {

/// How a call of a hook ended.
#[derive(Debug, Clone, Copy, PartialEq, Eq, Structural)]
pub enum HookStatus {
    Success,
    HostError,
    GuestError,
}

/// What a hook returned.
#[derive(Debug, Clone, Copy, PartialEq, Eq, Structural)]
pub enum HookOutcome {
    /// The hook returned; `failures` of its results are errors of the guest.
    Returned { failures: usize },
    /// The host failed to run the hook.
    Internal,
    /// The guest returned an error.
    Guest,
}

impl HookStatus {
    pub open spec fn name(self) -> Seq<char> {
        match self {
            HookStatus::Success => "SUCCESS"@,
            HookStatus::HostError => "HOST_ERROR"@,
            HookStatus::GuestError => "GUEST_ERROR"@,
        }
    }

    /// The name of the status, as the metrics show it.
    pub fn as_str(&self) -> (r: &'static str)
        ensures
            r@ == self.name(),
    {
        match self {
            HookStatus::Success => "SUCCESS",
            HookStatus::HostError => "HOST_ERROR",
            HookStatus::GuestError => "GUEST_ERROR",
        }
    }

    /// The status of a call: a call that returned is a success unless one
    /// of its results is an error of the guest.
    pub fn of(outcome: HookOutcome) -> (r: HookStatus)
        ensures
            r == (match outcome {
                HookOutcome::Returned { failures } => if failures > 0 {
                    HookStatus::GuestError
                } else {
                    HookStatus::Success
                },
                HookOutcome::Internal => HookStatus::HostError,
                HookOutcome::Guest => HookStatus::GuestError,
            }),
    {
        match outcome {
            HookOutcome::Returned { failures } => if failures > 0 {
                HookStatus::GuestError
            } else {
                HookStatus::Success
            },
            HookOutcome::Internal => HookStatus::HostError,
            HookOutcome::Guest => HookStatus::GuestError,
        }
    }
}

/// What a rate limit is counted for.
#[derive(Debug)]
pub enum RateLimitKey {
    Global,
    Subgraph(String),
}

/// The key of the counter of a window.
pub open spec fn counter_key(prefix: Seq<char>, bucket: u64, key: RateLimitKey) -> Seq<char> {
    match key {
        RateLimitKey::Global => prefix + ":rate_limit:global:"@ + decimal_text(bucket as nat),
        RateLimitKey::Subgraph(graph) => prefix + ":subgraph:rate_limit:"@ + graph@ + ":"@ + decimal_text(bucket as nat),
    }
}

/// Writes the key of the counter of a window.
pub fn generate_key(prefix: &str, bucket: u64, key: &RateLimitKey) -> (r: String)
    ensures
        r@ == counter_key(prefix@, bucket, *key),
{
    let number = decimal_of(bucket);
    match key {
        RateLimitKey::Global => concat3(prefix, ":rate_limit:global:", number.as_str()),
        RateLimitKey::Subgraph(graph) => {
            let mut r = concat3(prefix, ":subgraph:rate_limit:", graph.as_str());
            r.append(":");
            r.append(number.as_str());
            r
        },
    }
}

/// The windows of a moment: the start of the window that the moment lies
/// in, the start of the window before, and how far into its window the
/// moment lies. Times are in nanoseconds.
pub fn rate_limit_windows(now: u64, duration: u64) -> (r: (u64, u64, u64))
    requires
        duration > 0,
        now >= duration,
    ensures
        r.0 == now - now % duration,
        r.1 == r.0 - duration,
        r.2 == now % duration,
        r.0 % duration == 0,
{
    let into = now % duration;
    let current = now - into;
    assert(current % duration == 0) by (nonlinear_arith)
        requires
            duration > 0,
            into == now % duration,
            current == now - into,
    ;
    assert(current >= duration) by (nonlinear_arith)
        requires
            duration > 0,
            now >= duration,
            into == now % duration,
            current == now - into,
            current % duration == 0,
    ;
    (current, current - duration, into)
}

/// A count of requests, held down to the limit.
pub fn capped_count(count: Option<u64>, limit: u64) -> (r: u64)
    ensures
        r == (match count {
            Some(c) => if c < limit {
                c
            } else {
                limit
            },
            None => if 0 < limit {
                0
            } else {
                limit
            },
        }),
{
    let c = match count {
        Some(c) => c,
        None => 0,
    };
    if c < limit {
        c
    } else {
        limit
    }
}

/// `ulid::Ulid::new`, as its sixteen bytes. It is made of the time and of
/// chance, so nothing is known of it.
#[verifier::external_body]
fn fresh_ulid_bytes() -> (r: Vec<u8>)
{
    Ulid::new().to_bytes().to_vec()
}

/// The version of a schema that is given: a zero, then the given bytes.
pub open spec fn given_version(version: Seq<u8>) -> Seq<u8> {
    seq![0u8] + version
}

/// The version of a schema that is not given: a one, then bytes of chance.
pub open spec fn random_version(random: Seq<u8>) -> Seq<u8> {
    seq![1u8] + random
}

/// The version of a schema, of which `random` is used where none is given.
pub fn schema_version_with(version: Option<&Vec<u8>>, random: &Vec<u8>) -> (r: Vec<u8>)
    ensures
        r@ == (match version {
            Some(v) => given_version(v@),
            None => random_version(random@),
        }),
{
    let mut out: Vec<u8> = Vec::new();
    let source = match version {
        Some(v) => {
            out.push(0x00);
            v
        },
        None => {
            out.push(0x01);
            random
        },
    };
    let ghost first = out@;
    let mut i: usize = 0;
    while i < source.len()
        invariant
            i <= source.len(),
            out@ == first + source@.subrange(0, i as int),
        decreases source.len() - i,
    {
        out.push(source[i]);
        i = i + 1;
    }
    assert(source@.subrange(0, source.len() as int) =~= source@);
    out
}

/// The version of a schema: the given one, marked as given, or a fresh one
/// that no other schema has.
pub fn schema_version(version: Option<&Vec<u8>>) -> (r: Vec<u8>)
    ensures
        match version {
            Some(v) => r@ == given_version(v@),
            None => r@.len() > 0 && r@[0] == 1u8,
        },
{
    let random = fresh_ulid_bytes();
    schema_version_with(version, &random)
}

/// What a request asks for.
#[derive(Debug, Clone, Copy, PartialEq, Eq, Structural)]
pub enum RequestShape {
    Single,
    Batch { operations: usize },
}

/// How a request is answered.
#[derive(Debug, Clone, Copy, PartialEq, Eq, Structural)]
pub enum RequestPlan {
    /// No subgraph is registered: a plain error.
    NoSubgraphs,
    /// A batch on a streaming transport: an error on the stream.
    BatchOnStream,
    /// The request is not authorized: one refusal.
    Unauthorized,
    /// The request is not authorized: one refusal on the stream.
    UnauthorizedStream,
    /// The request is not authorized: one refusal for each operation.
    UnauthorizedBatch { operations: usize },
    /// One operation, one response.
    ExecuteSingle,
    /// One operation, a stream of responses.
    ExecuteStream,
    /// Each operation in turn, one response each.
    ExecuteBatch { operations: usize },
}

/// The message for a batch on a streaming transport.
pub const BATCH_ON_STREAM: &'static str = "Batch requests cannot be combined with streaming response formats at present";

/// The message for a batch on a streaming transport, from the engine.
pub const BATCH_ON_STREAM_ENGINE: &'static str = "batch requests can't use multipart or event-stream responses";

/// The message for a subscription on a transport that does not stream.
pub const SUBSCRIPTION_NEEDS_STREAM: &'static str =
    "Subscriptions are only suported on streaming transports. Try making a request with SSE or WebSockets";

/// The plan for a request. A gateway without subgraphs answers nothing. A
/// batch of more than one operation cannot be streamed. Then authorization
/// decides; a batch cannot be streamed even if it holds one operation, but
/// by then it is refused only where it is not authorized.
pub open spec fn planned(has_gateway: bool, streaming: bool, shape: RequestShape, authorized: bool) -> RequestPlan {
    if !has_gateway {
        RequestPlan::NoSubgraphs
    } else if streaming && shape is Batch && shape->operations > 1 {
        RequestPlan::BatchOnStream
    } else if !authorized {
        match shape {
            RequestShape::Single => if streaming {
                RequestPlan::UnauthorizedStream
            } else {
                RequestPlan::Unauthorized
            },
            RequestShape::Batch { operations } => RequestPlan::UnauthorizedBatch { operations },
        }
    } else {
        match shape {
            RequestShape::Single => if streaming {
                RequestPlan::ExecuteStream
            } else {
                RequestPlan::ExecuteSingle
            },
            RequestShape::Batch { operations } => if streaming {
                RequestPlan::BatchOnStream
            } else {
                RequestPlan::ExecuteBatch { operations }
            },
        }
    }
}

/// Decides how a request is answered.
pub fn handle(has_gateway: bool, streaming: bool, shape: RequestShape, authorized: bool) -> (r: RequestPlan)
    ensures
        r == planned(has_gateway, streaming, shape, authorized),
{
    if !has_gateway {
        return RequestPlan::NoSubgraphs;
    }
    match shape {
        RequestShape::Batch { operations } => {
            if streaming && operations > 1 {
                return RequestPlan::BatchOnStream;
            }
        },
        RequestShape::Single => {},
    }
    if !authorized {
        return match shape {
            RequestShape::Single => if streaming {
                RequestPlan::UnauthorizedStream
            } else {
                RequestPlan::Unauthorized
            },
            RequestShape::Batch { operations } => RequestPlan::UnauthorizedBatch { operations },
        };
    }
    match shape {
        RequestShape::Single => if streaming {
            RequestPlan::ExecuteStream
        } else {
            RequestPlan::ExecuteSingle
        },
        RequestShape::Batch { operations } => if streaming {
            RequestPlan::BatchOnStream
        } else {
            RequestPlan::ExecuteBatch { operations }
        },
    }
}

/// The error of an operation that cannot run on a transport, if it cannot:
/// a subscription needs a transport that streams.
pub fn execute_single(operation: OperationType, streaming: bool) -> (r: Option<ErrorCode>)
    ensures
        r == (if operation == OperationType::Subscription && !streaming {
            Some(ErrorCode::BadRequest)
        } else {
            None
        }),
{
    match operation {
        OperationType::Subscription => if streaming {
            None
        } else {
            Some(ErrorCode::BadRequest)
        },
        _ => None,
    }
}

/// The kind of a message on a websocket.
#[derive(Debug, Clone, Copy, PartialEq, Eq, Structural)]
pub enum MessageKind {
    Error,
    Next,
}

/// The kind of the message that carries a response: an error for a
/// response that failed before execution, else the next result.
pub fn execute_websocket(is_pre_execution_error: bool) -> (r: MessageKind)
    ensures
        r == (if is_pre_execution_error {
            MessageKind::Error
        } else {
            MessageKind::Next
        }),
{
    if is_pre_execution_error {
        MessageKind::Error
    } else {
        MessageKind::Next
    }
}

/// The header that carries an access token.
pub fn bearer(token: &str) -> (r: String)
    ensures
        r@ == "Bearer "@ + token@,
{
    concat2("Bearer ", token)
}

} // verus!
