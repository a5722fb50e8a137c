//! The protocol with the native worker processes: request ids, how a reply line is
//! checked, when a request is retried on a fresh process, and what a worker
//! answers.
use vstd::prelude::*;

use crate::text::{append_chars, append_str, chars_of, decimal, decimal_of, string_of, trim, trim_chars};

verus! {

pub const STT_WORKER_EXE: &'static str = "wisprtype-stt-worker";

pub const REFINEMENT_WORKER_EXE: &'static str = "wisprtype-refinement-worker";

/// Which worker process.
#[derive(Debug, Clone, Copy, PartialEq, Eq, Structural)]
pub enum WorkerKind {
    Stt,
    Refinement,
}

/// A worker's answer to one request.
#[derive(Debug)]
pub enum WorkerResponse {
    Done(String),
    Failed(String),
}

/// A worker's answer, tagged with the id of the request.
#[derive(Debug)]
pub struct WorkerResponseEnvelope {
    pub id: u64,
    pub response: WorkerResponse,
}

/// Why a request failed: the worker reported an error, or talking to the worker
/// process failed.
#[derive(Debug)]
pub enum RequestError {
    Worker(String),
    Transport(String),
}

/// What to do after one attempt of a request.
#[derive(Debug)]
pub enum RequestStep {
    /// The request is over with this result.
    Finished(Result<String, String>),
    /// Stop the worker process and try once more on a new one.
    Retry,
}

/// What a request handler inside a worker produced.
pub enum HandlerOutcome {
    Done(Result<String, String>),
    Panicked,
}

/// The request ids of one worker connection.
pub struct WorkerSession {
    kind: WorkerKind,
    next_id: u64,
}

pub open spec fn label_of(kind: WorkerKind) -> Seq<char> {
    match kind {
        WorkerKind::Stt => "STT worker"@,
        WorkerKind::Refinement => "refinement worker"@,
    }
}

pub open spec fn exe_base_of(kind: WorkerKind) -> Seq<char> {
    match kind {
        WorkerKind::Stt => STT_WORKER_EXE@,
        WorkerKind::Refinement => REFINEMENT_WORKER_EXE@,
    }
}

impl WorkerKind {
    /// How the worker is named in messages.
    pub fn label(self) -> (r: &'static str)
        ensures
            r@ == label_of(self),
    {
        match self {
            WorkerKind::Stt => "STT worker",
            WorkerKind::Refinement => "refinement worker",
        }
    }
}

/// The worker's executable file name on a platform (`.exe` on Windows).
pub fn worker_exe_name(kind: WorkerKind, windows: bool) -> (r: String)
    ensures
        windows ==> r@ == exe_base_of(kind) + ".exe"@,
        !windows ==> r@ == exe_base_of(kind),
{
    let base = match kind {
        WorkerKind::Stt => STT_WORKER_EXE,
        WorkerKind::Refinement => REFINEMENT_WORKER_EXE,
    };
    let mut out: Vec<char> = Vec::new();
    append_str(&mut out, base);
    if windows {
        append_str(&mut out, ".exe");
    }
    string_of(out.as_slice())
}

impl WorkerSession {
    /// A session whose first request gets id 1.
    pub fn new(kind: WorkerKind) -> (r: Self)
        ensures
            r.kind() == kind,
            r.next() == 1,
    {
        WorkerSession { kind, next_id: 1 }
    }

    pub closed spec fn kind(&self) -> WorkerKind {
        self.kind
    }

    pub closed spec fn next(&self) -> u64 {
        self.next_id
    }

    /// The worker this session talks to.
    pub fn worker_kind(&self) -> (r: WorkerKind)
        ensures
            r == self.kind(),
    {
        self.kind
    }

    /// The id for the next request; ids count up and stop at `u64::MAX`.
    pub fn take_id(&mut self) -> (id: u64)
        ensures
            id == old(self).next(),
            final(self).kind() == old(self).kind(),
            final(self).next() == if old(self).next() == u64::MAX {
                u64::MAX
            } else {
                (old(self).next() + 1) as u64
            },
    {
        let id = self.next_id;
        self.next_id = self.next_id.saturating_add(1);
        id
    }
}

/// The result of a request whose reply line was read: `bytes` read and the `line`,
/// or the read error; then the decoded reply, or the decoding error.
pub open spec fn reply_outcome(
    label: Seq<char>,
    expected_id: u64,
    read: Result<usize, String>,
    decoded: Result<WorkerResponseEnvelope, String>,
) -> Result<Result<Seq<char>, Seq<char>>, Seq<char>> {
    match read {
        Err(e) => Err("Failed to read response from "@ + label + ": "@ + e@),
        Ok(bytes) => if bytes == 0 {
            Err(label + " exited before responding"@)
        } else {
            match decoded {
                Err(e) => Err(label + " returned invalid response: "@ + e@),
                Ok(env) => if env.id != expected_id {
                    Err(label + " response id mismatch: expected "@ + decimal(expected_id as nat)
                        + ", got "@ + decimal(env.id as nat))
                } else {
                    match env.response {
                        WorkerResponse::Done(t) => Ok(Ok(t@)),
                        WorkerResponse::Failed(e) => Ok(Err(e@)),
                    }
                },
            }
        },
    }
}

/// The view of a request result: `Ok(Ok(text))`, `Ok(Err(worker error))` or
/// `Err(transport error)`.
pub open spec fn request_result_view(r: Result<String, RequestError>) -> Result<
    Result<Seq<char>, Seq<char>>,
    Seq<char>,
> {
    match r {
        Ok(t) => Ok(Ok(t@)),
        Err(RequestError::Worker(e)) => Ok(Err(e@)),
        Err(RequestError::Transport(e)) => Err(e@),
    }
}

/// Checks the reply to request `expected_id` of the worker `kind`.
pub fn check_reply(
    kind: WorkerKind,
    expected_id: u64,
    read: Result<usize, String>,
    decoded: Result<WorkerResponseEnvelope, String>,
) -> (r: Result<String, RequestError>)
    ensures
        request_result_view(r) == reply_outcome(label_of(kind), expected_id, read, decoded),
{
    let label = kind.label();
    let mut out: Vec<char> = Vec::new();
    match read {
        Err(e) => {
            append_str(&mut out, "Failed to read response from ");
            append_str(&mut out, label);
            append_str(&mut out, ": ");
            append_str(&mut out, e.as_str());
            Err(RequestError::Transport(string_of(out.as_slice())))
        },
        Ok(bytes) => {
            if bytes == 0 {
                append_str(&mut out, label);
                append_str(&mut out, " exited before responding");
                return Err(RequestError::Transport(string_of(out.as_slice())));
            }
            match decoded {
                Err(e) => {
                    append_str(&mut out, label);
                    append_str(&mut out, " returned invalid response: ");
                    append_str(&mut out, e.as_str());
                    Err(RequestError::Transport(string_of(out.as_slice())))
                },
                Ok(env) => {
                    if env.id != expected_id {
                        append_str(&mut out, label);
                        append_str(&mut out, " response id mismatch: expected ");
                        append_chars(&mut out, decimal_of(expected_id).as_slice());
                        append_str(&mut out, ", got ");
                        append_chars(&mut out, decimal_of(env.id).as_slice());
                        return Err(RequestError::Transport(string_of(out.as_slice())));
                    }
                    match env.response {
                        WorkerResponse::Done(t) => Ok(t),
                        WorkerResponse::Failed(e) => Err(RequestError::Worker(e)),
                    }
                },
            }
        },
    }
}

/// What follows attempt `attempt` (0 or 1) of a request: a reply or a worker error
/// ends the request; a transport failure is retried once on a new process.
pub fn next_request_step(attempt: u32, outcome: Result<String, RequestError>) -> (r: RequestStep)
    ensures
        match outcome {
            Ok(t) => r matches RequestStep::Finished(Ok(t2)) && t2 == t,
            Err(RequestError::Worker(e)) => r matches RequestStep::Finished(Err(e2)) && e2 == e,
            Err(RequestError::Transport(e)) => if attempt >= 1 {
                r matches RequestStep::Finished(Err(e2)) && e2 == e
            } else {
                r is Retry
            },
        },
{
    match outcome {
        Ok(t) => RequestStep::Finished(Ok(t)),
        Err(RequestError::Worker(e)) => RequestStep::Finished(Err(e)),
        Err(RequestError::Transport(e)) => {
            if attempt >= 1 {
                RequestStep::Finished(Err(e))
            } else {
                RequestStep::Retry
            }
        },
    }
}

/// The error when no attempt produced a reply.
pub fn no_response_error(kind: WorkerKind) -> (r: String)
    ensures
        r@ == label_of(kind) + " did not return a response"@,
{
    let mut out: Vec<char> = Vec::new();
    append_str(&mut out, kind.label());
    append_str(&mut out, " did not return a response");
    string_of(out.as_slice())
}

/// A request line that is blank is skipped.
pub fn is_blank_request(line: &str) -> (r: bool)
    ensures
        r == (trim(line@).len() == 0),
{
    trim_chars(chars_of(line).as_slice()).len() == 0
}

/// The answer a worker sends for a handled request.
pub fn response_for(outcome: HandlerOutcome) -> (r: WorkerResponse)
    ensures
        match outcome {
            HandlerOutcome::Done(Ok(t)) => r matches WorkerResponse::Done(t2) && t2 == t,
            HandlerOutcome::Done(Err(e)) => r matches WorkerResponse::Failed(e2) && e2 == e,
            HandlerOutcome::Panicked => r matches WorkerResponse::Failed(e2) && e2@
                == "Native worker request panicked"@,
        },
{
    match outcome {
        HandlerOutcome::Done(Ok(t)) => WorkerResponse::Done(t),
        HandlerOutcome::Done(Err(e)) => WorkerResponse::Failed(e),
        HandlerOutcome::Panicked => WorkerResponse::Failed(
            string_of(chars_of("Native worker request panicked").as_slice()),
        ),
    }
}

/// The error when a request could not be written to the worker.
pub fn send_failed_error(kind: WorkerKind, error: &str) -> (r: String)
    ensures
        r@ == "Failed to send request to "@ + label_of(kind) + ": "@ + error@,
{
    let mut out: Vec<char> = Vec::new();
    append_str(&mut out, "Failed to send request to ");
    append_str(&mut out, kind.label());
    append_str(&mut out, ": ");
    append_str(&mut out, error);
    string_of(out.as_slice())
}

/// Which worker executable to start. `beside_app` is the candidate next to the app
/// binary and whether it exists (`None` when the binary has no directory), or the
/// error locating the binary; `in_cwd` is the candidate in the current directory
/// and whether it exists, or the error resolving that directory. The candidate
/// beside the app wins, then the one in the current directory.
pub fn locate_worker_executable(
    kind: WorkerKind,
    exe_name: &str,
    beside_app: Result<Option<(String, bool)>, String>,
    in_cwd: Result<(String, bool), String>,
) -> (r: Result<String, String>)
    ensures
        match beside_app {
            Err(e) => r matches Err(m) && m@ == "Failed to locate current executable for "@
                + label_of(kind) + ": "@ + e@,
            Ok(Some((path, true))) => r == Ok::<String, String>(path),
            _ => match in_cwd {
                Err(e) => r matches Err(m) && m@ == "Failed to resolve current directory: "@ + e@,
                Ok((path, true)) => r == Ok::<String, String>(path),
                Ok((_, false)) => r matches Err(m) && m@ == label_of(kind) + " executable `"@
                    + exe_name@ + "` was not found next to the app binary"@,
            },
        },
{
    let mut out: Vec<char> = Vec::new();
    match beside_app {
        Err(e) => {
            append_str(&mut out, "Failed to locate current executable for ");
            append_str(&mut out, kind.label());
            append_str(&mut out, ": ");
            append_str(&mut out, e.as_str());
            return Err(string_of(out.as_slice()));
        },
        Ok(Some((path, true))) => {
            return Ok(path);
        },
        Ok(_) => {},
    }
    match in_cwd {
        Err(e) => {
            append_str(&mut out, "Failed to resolve current directory: ");
            append_str(&mut out, e.as_str());
            Err(string_of(out.as_slice()))
        },
        Ok((path, true)) => Ok(path),
        Ok((_, false)) => {
            append_str(&mut out, kind.label());
            append_str(&mut out, " executable `");
            append_str(&mut out, exe_name);
            append_str(&mut out, "` was not found next to the app binary");
            Err(string_of(out.as_slice()))
        },
    }
}

/// A reply counts as the answer to a request only when it carries that request's
/// id: any other id is a transport failure, whatever the reply says.
pub proof fn law_reply_ids_must_match(
    label: Seq<char>,
    expected_id: u64,
    read: Result<usize, String>,
    decoded: Result<WorkerResponseEnvelope, String>,
)
    ensures
        reply_outcome(label, expected_id, read, decoded) is Ok ==> (decoded matches Ok(env)
            && env.id == expected_id),
        decoded matches Ok(env) && env.id != expected_id ==> reply_outcome(
            label,
            expected_id,
            read,
            decoded,
        ) is Err,
{
}

} // verus!
