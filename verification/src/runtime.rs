//! The process-session engine.
//!
//! The kernel process itself lives outside this crate; this module holds
//! the decisions of its lifecycle as a state machine over read events. A
//! session starts awaiting the kernel's one-time `hello` line, becomes
//! ready when it arrives, and is poisoned for good by a crash (the output
//! stream closing) or by termination. The shell around the library spawns
//! the process, reads its lines, hands them in as [`ReadEvent`]s, and
//! sends the kill signal when [`JsiiRuntime::kill`] first asks for it.

use vstd::prelude::*;

use crate::api::JsiiRequest;
use crate::api::JsiiResponse;
use crate::api::SpecResponse;
use crate::api::response_from_json;
use crate::api::spec_decode_response;
use crate::api::spec_request_json;
use crate::json::chars_of;
use crate::json::encode_json;
use crate::json::parse_json;
use crate::json::push_char;
use crate::json::spec_encode;
use crate::json::spec_parse_text;

verus! {

/// Where a session stands.
#[derive(Debug, Clone, Copy, PartialEq, Eq, Structural)]
pub enum RuntimeState {
    /// Spawned; the kernel's first line has not been read yet.
    AwaitingHello,
    /// The handshake succeeded; requests may be exchanged.
    Ready,
    /// The handshake read something other than the greeting; the session
    /// never becomes usable.
    Failed,
    /// The kernel's output stream closed; the session is unusable for
    /// good.
    Crashed,
    /// The session was told to terminate its process.
    Terminated,
}

/// One outcome of reading a line from the kernel's output: a whole line,
/// or the stream closing, with whatever the kernel left on its error
/// stream as the diagnostic.
#[derive(Debug)]
pub enum ReadEvent {
    Line(String),
    Closed { stderr: String },
}

pub enum SpecReadEvent {
    Line(Seq<char>),
    Closed(Seq<char>),
}

impl View for ReadEvent {
    type V = SpecReadEvent;

    open spec fn view(&self) -> SpecReadEvent {
        match self {
            ReadEvent::Line(l) => SpecReadEvent::Line(l@),
            ReadEvent::Closed { stderr } => SpecReadEvent::Closed(stderr@),
        }
    }
}

/// A failure of the session itself, as opposed to an error the kernel
/// reported for one request.
#[derive(Debug)]
pub enum JsiiRuntimeError {
    /// The kernel's output closed; holds what its error stream said.
    Crash(String),
    /// The first line was not the greeting; holds what it was instead.
    Handshake(JsiiResponse),
    /// The shell could not read or write the process's streams.
    Io(String),
    /// A request could not be put on the wire.
    BadInput(String),
    /// A line arrived that does not parse as a response; holds the line.
    BadOutput(String),
}

pub enum SpecRuntimeError {
    Crash(Seq<char>),
    Handshake(SpecResponse),
    Io(Seq<char>),
    BadInput(Seq<char>),
    BadOutput(Seq<char>),
}

impl View for JsiiRuntimeError {
    type V = SpecRuntimeError;

    open spec fn view(&self) -> SpecRuntimeError {
        match self {
            JsiiRuntimeError::Crash(s) => SpecRuntimeError::Crash(s@),
            JsiiRuntimeError::Handshake(r) => SpecRuntimeError::Handshake(r@),
            JsiiRuntimeError::Io(s) => SpecRuntimeError::Io(s@),
            JsiiRuntimeError::BadInput(s) => SpecRuntimeError::BadInput(s@),
            JsiiRuntimeError::BadOutput(s) => SpecRuntimeError::BadOutput(s@),
        }
    }
}

impl JsiiRuntimeError {
    /// The fixed label of this failure's family.
    pub open spec fn spec_description(&self) -> Seq<char> {
        match self {
            JsiiRuntimeError::Crash(_) => "runtime child process crashed"@,
            JsiiRuntimeError::Handshake(_) => "unexpected handshake response"@,
            JsiiRuntimeError::Io(_) => "input/output failure"@,
            JsiiRuntimeError::BadInput(_) => "request could not be encoded"@,
            JsiiRuntimeError::BadOutput(_) => "response line could not be decoded"@,
        }
    }

    /// The fixed label of this failure's family.
    pub fn description(&self) -> (r: &'static str)
        ensures
            r@ == self.spec_description(),
    {
        match self {
            JsiiRuntimeError::Crash(_) => "runtime child process crashed",
            JsiiRuntimeError::Handshake(_) => "unexpected handshake response",
            JsiiRuntimeError::Io(_) => "input/output failure",
            JsiiRuntimeError::BadInput(_) => "request could not be encoded",
            JsiiRuntimeError::BadOutput(_) => "response line could not be decoded",
        }
    }
}

/// What one line from the kernel means: its JSON value classified by the
/// envelope policy, or nothing if it does not parse.
pub open spec fn spec_response_of_line(l: Seq<char>) -> Option<SpecResponse> {
    match spec_parse_text(l) {
        Some(v) => spec_decode_response(v),
        None => None,
    }
}

/// The wire line of one request: its canonical JSON text and the line
/// terminator.
pub open spec fn spec_request_line(req: JsiiRequest) -> Seq<char> {
    spec_encode(spec_request_json(req)) + seq!['\n']
}

/// Parse and classify one line from the kernel.
pub fn response_of_line(line: &String) -> (r: Option<JsiiResponse>)
    ensures
        r matches Some(resp) ==> spec_response_of_line(line@) == Some(resp@),
        r is None ==> spec_response_of_line(line@) is None,
{
    let cs = chars_of(line.as_str());
    match parse_json(&cs) {
        Some(v) => response_from_json(&v),
        None => None,
    }
}

/// The session state machine for one kernel process.
#[derive(Debug)]
pub struct JsiiRuntime {
    state: RuntimeState,
}

/// What termination does to a session: it is terminated afterwards, and
/// the kill signal is owed only the first time.
pub open spec fn spec_kill_step(st: RuntimeState) -> (RuntimeState, bool) {
    (RuntimeState::Terminated, st != RuntimeState::Terminated)
}

impl JsiiRuntime {
    /// Where this session stands.
    pub closed spec fn spec_state(&self) -> RuntimeState {
        self.state
    }

    /// Where this session stands.
    pub fn state(&self) -> (r: RuntimeState)
        ensures
            r == self.spec_state(),
    {
        self.state
    }

    /// A session for a freshly spawned kernel process, its greeting still
    /// unread.
    pub fn new() -> (r: JsiiRuntime)
        ensures
            r.spec_state() == RuntimeState::AwaitingHello,
    {
        JsiiRuntime { state: RuntimeState::AwaitingHello }
    }

    /// Decide the handshake from the first read event. The session becomes
    /// ready exactly when a whole line arrived and that line is the
    /// kernel's greeting; anything else fails the handshake for good:
    /// a closed stream is a crash, an unreadable line is refused as such,
    /// and any other response is reported as the wrong greeting.
    pub fn handshake(&mut self, ev: ReadEvent) -> (r: Result<(), JsiiRuntimeError>)
        requires
            old(self).spec_state() == RuntimeState::AwaitingHello,
        ensures
            r is Ok <==> (ev@ matches SpecReadEvent::Line(l) && spec_response_of_line(l)
                matches Some(SpecResponse::Hello(_))),
            r is Ok <==> final(self).spec_state() == RuntimeState::Ready,
            ev@ matches SpecReadEvent::Closed(stderr) ==> (r matches Err(e) && e@
                == SpecRuntimeError::Crash(stderr) && final(self).spec_state()
                == RuntimeState::Crashed),
            ev@ matches SpecReadEvent::Line(l) ==> (spec_response_of_line(l) is None ==> (r
                matches Err(e) && e@ == SpecRuntimeError::BadOutput(l) && final(self).spec_state()
                == RuntimeState::Failed)),
            ev@ matches SpecReadEvent::Line(l) ==> (spec_response_of_line(l) matches Some(sr) ==> (
            !(sr is Hello) ==> (r matches Err(e) && e@ == SpecRuntimeError::Handshake(sr)
                && final(self).spec_state() == RuntimeState::Failed))),
    {
        match ev {
            ReadEvent::Closed { stderr } => {
                self.state = RuntimeState::Crashed;
                Err(JsiiRuntimeError::Crash(stderr))
            },
            ReadEvent::Line(l) => match response_of_line(&l) {
                None => {
                    self.state = RuntimeState::Failed;
                    Err(JsiiRuntimeError::BadOutput(l))
                },
                Some(resp) => match resp {
                    JsiiResponse::Hello(_) => {
                        self.state = RuntimeState::Ready;
                        Ok(())
                    },
                    other => {
                        self.state = RuntimeState::Failed;
                        Err(JsiiRuntimeError::Handshake(other))
                    },
                },
            },
        }
    }

    /// The wire line for one request, ready to be written whole.
    pub fn prepare_request(&self, req: JsiiRequest) -> (line: String)
        requires
            self.spec_state() == RuntimeState::Ready,
        ensures
            line@ == spec_request_line(req),
    {
        let jv = crate::api::request_to_json(req);
        let mut line = encode_json(&jv);
        push_char(&mut line, '\n');
        proof {
            assert(spec_encode(spec_request_json(req)).push('\n') =~= spec_request_line(req));
        }
        line
    }

    /// Interpret the read event answering one request. A closed stream is
    /// the crash signal: the session is poisoned and the kernel's error
    /// stream is surfaced whole in the failure. A line that does not parse
    /// as a response is refused, holding the line; any parsed response is
    /// handed back as read. The session stays ready in both line cases.
    pub fn read_next_line(&mut self, ev: ReadEvent) -> (r: Result<
        JsiiResponse,
        JsiiRuntimeError,
    >)
        requires
            old(self).spec_state() == RuntimeState::Ready,
        ensures
            ev@ matches SpecReadEvent::Closed(stderr) ==> (r matches Err(e) && e@
                == SpecRuntimeError::Crash(stderr) && final(self).spec_state()
                == RuntimeState::Crashed),
            ev@ matches SpecReadEvent::Line(l) ==> (spec_response_of_line(l) is None ==> (r
                matches Err(e) && e@ == SpecRuntimeError::BadOutput(l) && final(self).spec_state()
                == RuntimeState::Ready)),
            ev@ matches SpecReadEvent::Line(l) ==> (spec_response_of_line(l) matches Some(sr) ==> (
            r matches Ok(resp) && resp@ == sr && final(self).spec_state() == RuntimeState::Ready)),
    {
        match ev {
            ReadEvent::Closed { stderr } => {
                self.state = RuntimeState::Crashed;
                Err(JsiiRuntimeError::Crash(stderr))
            },
            ReadEvent::Line(l) => match response_of_line(&l) {
                None => Err(JsiiRuntimeError::BadOutput(l)),
                Some(resp) => Ok(resp),
            },
        }
    }

    /// Ask to terminate the session's process. The session is terminated
    /// afterwards; the result says whether the caller still owes the
    /// process its kill signal, which is the case only the first time, so
    /// a second call does nothing and cannot fail.
    pub fn kill(&mut self) -> (send_signal: bool)
        ensures
            (final(self).spec_state(), send_signal) == spec_kill_step(old(self).spec_state()),
    {
        let send_signal = match self.state {
            RuntimeState::Terminated => false,
            _ => true,
        };
        self.state = RuntimeState::Terminated;
        send_signal
    }
}

/// Framing of every request line whose carried values are representable
/// — as every value the crate's constructors can build is: the line ends
/// in the line terminator, and no other character of it is a newline,
/// whatever the request's texts hold. One request is always exactly one
/// wire line.
pub proof fn lemma_request_line_framing(req: JsiiRequest)
    requires
        crate::api::spec_request_values_wf(req),
    ensures
        spec_request_line(req).len() > 0,
        spec_request_line(req).last() == '\n',
        forall|k: int|
            0 <= k < spec_request_line(req).len() - 1 ==> #[trigger] spec_request_line(req)[k]
                != '\n',
{
    let e = spec_encode(spec_request_json(req));
    crate::api::lemma_request_json_wf(req);
    crate::json::lemma_encode_line_safe(spec_request_json(req));
    assert(spec_request_line(req).last() == '\n');
    assert forall|k: int|
        0 <= k < spec_request_line(req).len() - 1 implies #[trigger] spec_request_line(req)[k]
        != '\n' by {
        assert(spec_request_line(req)[k] == e[k]);
    }
}

/// What the client puts on the wire reads back as itself: the line of a
/// request whose carried values are representable parses to exactly the
/// request's wire value, so a conforming reader of the line sees the
/// request that was sent.
pub proof fn lemma_request_line_round_trip(req: JsiiRequest)
    requires
        crate::api::spec_request_values_wf(req),
    ensures
        crate::json::spec_parse_text(spec_request_line(req)) == Some(spec_request_json(req)),
{
    crate::api::lemma_request_json_wf(req);
    crate::json::lemma_parse_encode_line(spec_request_json(req));
}

/// Termination is idempotent: after one termination the session is
/// terminated, and a second termination owes no signal and leaves the
/// session as it is.
pub proof fn lemma_kill_idempotent(st: RuntimeState)
    ensures
        spec_kill_step(st).0 == RuntimeState::Terminated,
        spec_kill_step(spec_kill_step(st).0).1 == false,
        spec_kill_step(spec_kill_step(st).0).0 == spec_kill_step(st).0,
{
}

} // verus!
