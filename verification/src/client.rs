//! The client facade.
//!
//! One operation per logical capability: load a module, create an object,
//! invoke a method, read or write a property. Every operation is one full
//! round trip: the client builds the wire line for the request and
//! remembers which operation is outstanding; the shell writes the line,
//! reads the answering line, and hands it back to the matching finish
//! call, which narrows the generic response into the operation's own
//! result type or a typed error. A response whose shape does not match
//! the operation just issued is refused, never coerced.

use vstd::prelude::*;
use vstd::pervasive::unreached;

use crate::api::JsiiCallbackResponse;
use crate::api::JsiiCreateObject;
use crate::api::JsiiGetRequest;
use crate::api::JsiiGetResponse;
use crate::api::JsiiInvokeRequest;
use crate::api::JsiiInvokeResponse;
use crate::api::JsiiKernelResponse;
use crate::api::JsiiLoadResponse;
use crate::api::JsiiModule;
use crate::api::JsiiObjRef;
use crate::api::JsiiRequest;
use crate::api::JsiiRequestKind;
use crate::api::JsiiResponse;
use crate::api::JsiiSetRequest;
use crate::api::JsiiSetResponse;
use crate::api::SpecCallbackResponse;
use crate::api::SpecKernelResponse;
use crate::api::SpecResponse;
use crate::api::kernel_response_from_json;
use crate::api::spec_narrow;
use crate::json::JsonValue;
use crate::json::SpecJson;
use crate::runtime::JsiiRuntime;
use crate::runtime::JsiiRuntimeError;
use crate::runtime::ReadEvent;
use crate::runtime::RuntimeState;
use crate::runtime::SpecReadEvent;
use crate::runtime::SpecRuntimeError;
use crate::runtime::spec_request_line;
use crate::runtime::spec_response_of_line;

verus! {

/// A failure of one client operation.
#[derive(Debug)]
pub enum JsiiClientError {
    /// The session itself failed: crash, handshake, input/output, codec.
    Runtime(JsiiRuntimeError),
    /// The kernel reported an error for this one request; the session
    /// stays usable.
    Kernel { error: String, stack: Option<String> },
    /// The kernel called back into the host, which this client does not
    /// support; the callback is surfaced whole.
    UnsupportedCallback(JsiiCallbackResponse),
    /// A greeting or a pending marker arrived outside its context.
    UnexpectedResponse(JsiiResponse),
    /// A well-formed success payload whose shape is not the one the
    /// operation just issued calls for; holds the payload.
    UnexpectedKernelResponse(JsonValue),
    /// A well-formed result value that does not fit the requested host
    /// type; holds the value.
    FormatError(JsonValue),
}

pub enum SpecClientError {
    Runtime(SpecRuntimeError),
    Kernel { error: Seq<char>, stack: Option<Seq<char>> },
    UnsupportedCallback(SpecCallbackResponse),
    UnexpectedResponse(SpecResponse),
    UnexpectedKernelResponse(SpecJson),
    FormatError(SpecJson),
}

impl View for JsiiClientError {
    type V = SpecClientError;

    open spec fn view(&self) -> SpecClientError {
        match self {
            JsiiClientError::Runtime(e) => SpecClientError::Runtime(e@),
            JsiiClientError::Kernel { error, stack } => SpecClientError::Kernel {
                error: error@,
                stack: match stack {
                    Some(s) => Some(s@),
                    None => None,
                },
            },
            JsiiClientError::UnsupportedCallback(cb) => SpecClientError::UnsupportedCallback(cb@),
            JsiiClientError::UnexpectedResponse(r) => SpecClientError::UnexpectedResponse(r@),
            JsiiClientError::UnexpectedKernelResponse(v) => SpecClientError::UnexpectedKernelResponse(
                v@,
            ),
            JsiiClientError::FormatError(v) => SpecClientError::FormatError(v@),
        }
    }
}

impl From<JsiiRuntimeError> for JsiiClientError {
    /// A session failure wrapped as the failure of the operation it
    /// interrupted.
    fn from(err: JsiiRuntimeError) -> (r: JsiiClientError) {
        JsiiClientError::Runtime(err)
    }
}

impl vstd::std_specs::convert::FromSpecImpl<JsiiRuntimeError> for JsiiClientError {
    open spec fn obeys_from_spec() -> bool {
        true
    }

    open spec fn from_spec(err: JsiiRuntimeError) -> JsiiClientError {
        JsiiClientError::Runtime(err)
    }
}

impl JsiiClientError {
    /// The fixed label of this failure's family; a wrapped session
    /// failure keeps its own label.
    pub open spec fn spec_description(&self) -> Seq<char> {
        match self {
            JsiiClientError::Runtime(e) => e.spec_description(),
            JsiiClientError::Kernel { .. } => "kernel reported an error"@,
            JsiiClientError::UnsupportedCallback(_) => "callbacks are not supported"@,
            JsiiClientError::UnexpectedResponse(_) => "unexpected response to request"@,
            JsiiClientError::UnexpectedKernelResponse(_) => "unexpected kernel response"@,
            JsiiClientError::FormatError(_) => "unexpected result format"@,
        }
    }

    /// The fixed label of this failure's family; a wrapped session
    /// failure keeps its own label.
    pub fn description(&self) -> (r: &'static str)
        ensures
            r@ == self.spec_description(),
    {
        match self {
            JsiiClientError::Runtime(e) => e.description(),
            JsiiClientError::Kernel { .. } => "kernel reported an error",
            JsiiClientError::UnsupportedCallback(_) => "callbacks are not supported",
            JsiiClientError::UnexpectedResponse(_) => "unexpected response to request",
            JsiiClientError::UnexpectedKernelResponse(_) => "unexpected kernel response",
            JsiiClientError::FormatError(_) => "unexpected result format",
        }
    }
}

/// What finishing an operation of the given family yields for a given
/// read event: the crash and codec failures of the session; the kernel's
/// own error; a refused callback; a greeting or pending marker out of
/// context; a success payload narrowed to the family's result shape; or
/// the payload refused whole when its shape is not the family's.
pub open spec fn spec_finish(kind: JsiiRequestKind, ev: SpecReadEvent) -> Result<
    SpecKernelResponse,
    SpecClientError,
> {
    match ev {
        SpecReadEvent::Closed(stderr) => Err(
            SpecClientError::Runtime(SpecRuntimeError::Crash(stderr)),
        ),
        SpecReadEvent::Line(l) => match spec_response_of_line(l) {
            None => Err(SpecClientError::Runtime(SpecRuntimeError::BadOutput(l))),
            Some(sr) => match sr {
                SpecResponse::Error(e) => Err(
                    SpecClientError::Kernel { error: e.error, stack: e.stack },
                ),
                SpecResponse::Callback(cb) => Err(SpecClientError::UnsupportedCallback(cb)),
                SpecResponse::Hello(_) => Err(SpecClientError::UnexpectedResponse(sr)),
                SpecResponse::Pending(_) => Err(SpecClientError::UnexpectedResponse(sr)),
                SpecResponse::Okay(payload) => match spec_narrow(kind, payload) {
                    Some(k) => Ok(k),
                    None => Err(SpecClientError::UnexpectedKernelResponse(payload)),
                },
            },
        },
    }
}

/// A client around one ready session. At most one request is outstanding
/// at a time; the outstanding operation's family picks the result shape
/// its answer is narrowed against.
#[derive(Debug)]
pub struct JsiiClient {
    runtime: JsiiRuntime,
    pending: Option<JsiiRequestKind>,
}

impl JsiiClient {
    /// The state of the underlying session.
    pub closed spec fn spec_runtime_state(&self) -> RuntimeState {
        self.runtime.spec_state()
    }

    /// The operation awaiting its answer, if any.
    pub closed spec fn spec_pending(&self) -> Option<JsiiRequestKind> {
        self.pending
    }

    /// The client is idle and its session usable: ready, with no request
    /// outstanding.
    pub open spec fn spec_idle(&self) -> bool {
        self.spec_runtime_state() == RuntimeState::Ready && self.spec_pending() is None
    }

    /// The client is idle and its session usable.
    pub fn is_idle(&self) -> (r: bool)
        ensures
            r == self.spec_idle(),
    {
        match self.runtime.state() {
            RuntimeState::Ready => self.pending.is_none(),
            _ => false,
        }
    }

    /// The client awaits the answer of an operation of the given family.
    pub open spec fn spec_awaiting(&self, kind: JsiiRequestKind) -> bool {
        self.spec_runtime_state() == RuntimeState::Ready && self.spec_pending() == Some(kind)
    }

    /// A client over a session whose handshake succeeded. A session in
    /// any other state cannot back a client: a failed or crashed session
    /// never produces one.
    pub fn new(runtime: JsiiRuntime) -> (c: JsiiClient)
        requires
            runtime.spec_state() == RuntimeState::Ready,
        ensures
            c.spec_idle(),
    {
        JsiiClient { runtime, pending: None }
    }

    /// Build the wire line of one request and mark its family
    /// outstanding. The shell must write the line whole, then read one
    /// line and finish the operation with it.
    pub fn send_request(&mut self, req: JsiiRequest) -> (line: String)
        requires
            old(self).spec_idle(),
        ensures
            line@ == spec_request_line(req),
            final(self).spec_awaiting(req.spec_kind()),
    {
        let k = req.kind();
        let line = self.runtime.prepare_request(req);
        self.pending = Some(k);
        line
    }

    /// Narrow the read event answering the outstanding operation. The
    /// result is exactly what [`spec_finish`] says for the outstanding
    /// family; afterwards no request is outstanding, and the session is
    /// poisoned exactly when the event was the crash signal.
    pub fn receive(&mut self, ev: ReadEvent) -> (r: Result<JsiiKernelResponse, JsiiClientError>)
        requires
            old(self).spec_runtime_state() == RuntimeState::Ready,
            old(self).spec_pending() is Some,
        ensures
            r matches Ok(k) ==> spec_finish(old(self).spec_pending().unwrap(), ev@) == Ok::<
                SpecKernelResponse,
                SpecClientError,
            >(k@),
            r matches Err(e) ==> spec_finish(old(self).spec_pending().unwrap(), ev@) == Err::<
                SpecKernelResponse,
                SpecClientError,
            >(e@),
            final(self).spec_pending() is None,
            final(self).spec_runtime_state() == (if ev@ is Closed {
                RuntimeState::Crashed
            } else {
                RuntimeState::Ready
            }),
    {
        let k = self.pending.unwrap();
        self.pending = None;
        match self.runtime.read_next_line(ev) {
            Err(e) => Err(JsiiClientError::Runtime(e)),
            Ok(resp) => match resp {
                JsiiResponse::Error(e) => Err(
                    JsiiClientError::Kernel { error: e.error, stack: e.stack },
                ),
                JsiiResponse::Callback { callback } => Err(
                    JsiiClientError::UnsupportedCallback(callback),
                ),
                JsiiResponse::Okay(o) => match kernel_response_from_json(k, &o.ok) {
                    Some(kr) => Ok(kr),
                    None => Err(JsiiClientError::UnexpectedKernelResponse(o.ok)),
                },
                other => Err(JsiiClientError::UnexpectedResponse(other)),
            },
        }
    }

    /// Ask to terminate the session's process; see
    /// [`JsiiRuntime::kill`]. The client must not be used afterwards.
    pub fn kill(&mut self) -> (send_signal: bool)
        ensures
            (final(self).spec_runtime_state(), send_signal) == crate::runtime::spec_kill_step(
                old(self).spec_runtime_state(),
            ),
            final(self).spec_pending() == old(self).spec_pending(),
    {
        self.runtime.kill()
    }

    /// Send a module-load request; finish it with [`Self::finish_load`].
    pub fn load_module(&mut self, module: JsiiModule) -> (line: String)
        requires
            old(self).spec_idle(),
        ensures
            line@ == spec_request_line(JsiiRequest::Load(module)),
            final(self).spec_awaiting(JsiiRequestKind::Load),
    {
        self.send_request(JsiiRequest::Load(module))
    }

    /// Finish a module load: a load result reporting the assembly's name
    /// and its never-negative type count, or the error [`spec_finish`]
    /// assigns to the event.
    pub fn finish_load(&mut self, ev: ReadEvent) -> (r: Result<JsiiLoadResponse, JsiiClientError>)
        requires
            old(self).spec_awaiting(JsiiRequestKind::Load),
        ensures
            r matches Ok(l) ==> spec_finish(JsiiRequestKind::Load, ev@) == Ok::<
                SpecKernelResponse,
                SpecClientError,
            >(SpecKernelResponse::Load(l@)) && l.types >= 0,
            r matches Err(e) ==> spec_finish(JsiiRequestKind::Load, ev@) == Err::<
                SpecKernelResponse,
                SpecClientError,
            >(e@),
            final(self).spec_pending() is None,
            final(self).spec_runtime_state() == (if ev@ is Closed {
                RuntimeState::Crashed
            } else {
                RuntimeState::Ready
            }),
    {
        match self.receive(ev) {
            Err(e) => Err(e),
            Ok(kr) => match kr {
                JsiiKernelResponse::Load(l) => Ok(l),
                _ => unreached(),
            },
        }
    }

    /// Send an object-creation request; finish it with
    /// [`Self::finish_create`].
    pub fn create_object(&mut self, object: JsiiCreateObject) -> (line: String)
        requires
            old(self).spec_idle(),
        ensures
            line@ == spec_request_line(JsiiRequest::Create(object)),
            final(self).spec_awaiting(JsiiRequestKind::Create),
    {
        self.send_request(JsiiRequest::Create(object))
    }

    /// Finish an object creation: the fresh handle the kernel minted, or
    /// the error [`spec_finish`] assigns to the event.
    pub fn finish_create(&mut self, ev: ReadEvent) -> (r: Result<JsiiObjRef, JsiiClientError>)
        requires
            old(self).spec_awaiting(JsiiRequestKind::Create),
        ensures
            r matches Ok(o) ==> spec_finish(JsiiRequestKind::Create, ev@) == Ok::<
                SpecKernelResponse,
                SpecClientError,
            >(SpecKernelResponse::Create(o@)),
            r matches Err(e) ==> spec_finish(JsiiRequestKind::Create, ev@) == Err::<
                SpecKernelResponse,
                SpecClientError,
            >(e@),
            final(self).spec_pending() is None,
            final(self).spec_runtime_state() == (if ev@ is Closed {
                RuntimeState::Crashed
            } else {
                RuntimeState::Ready
            }),
    {
        match self.receive(ev) {
            Err(e) => Err(e),
            Ok(kr) => match kr {
                JsiiKernelResponse::Create(o) => Ok(o),
                _ => unreached(),
            },
        }
    }

    /// Send a method invocation; finish it with [`Self::finish_invoke`].
    pub fn call_method(&mut self, method: JsiiInvokeRequest) -> (line: String)
        requires
            old(self).spec_idle(),
        ensures
            line@ == spec_request_line(JsiiRequest::Invoke(method)),
            final(self).spec_awaiting(JsiiRequestKind::Invoke),
    {
        self.send_request(JsiiRequest::Invoke(method))
    }

    /// Finish a method invocation: the invocation's result value, or the
    /// error [`spec_finish`] assigns to the event. A payload of any other
    /// family — a get result, say — is refused as an unexpected kernel
    /// response, never returned as if it were the method's result.
    pub fn finish_invoke(&mut self, ev: ReadEvent) -> (r: Result<
        JsiiInvokeResponse,
        JsiiClientError,
    >)
        requires
            old(self).spec_awaiting(JsiiRequestKind::Invoke),
        ensures
            r matches Ok(iv) ==> spec_finish(JsiiRequestKind::Invoke, ev@) == Ok::<
                SpecKernelResponse,
                SpecClientError,
            >(SpecKernelResponse::Invoke(iv.result@)),
            r matches Err(e) ==> spec_finish(JsiiRequestKind::Invoke, ev@) == Err::<
                SpecKernelResponse,
                SpecClientError,
            >(e@),
            final(self).spec_pending() is None,
            final(self).spec_runtime_state() == (if ev@ is Closed {
                RuntimeState::Crashed
            } else {
                RuntimeState::Ready
            }),
    {
        match self.receive(ev) {
            Err(e) => Err(e),
            Ok(kr) => match kr {
                JsiiKernelResponse::Invoke(iv) => Ok(iv),
                _ => unreached(),
            },
        }
    }

    /// Send a property read; finish it with [`Self::finish_get`].
    pub fn get_property(&mut self, request: JsiiGetRequest) -> (line: String)
        requires
            old(self).spec_idle(),
        ensures
            line@ == spec_request_line(JsiiRequest::Get(request)),
            final(self).spec_awaiting(JsiiRequestKind::Get),
    {
        self.send_request(JsiiRequest::Get(request))
    }

    /// Finish a property read: the property's value, or the error
    /// [`spec_finish`] assigns to the event.
    pub fn finish_get(&mut self, ev: ReadEvent) -> (r: Result<JsiiGetResponse, JsiiClientError>)
        requires
            old(self).spec_awaiting(JsiiRequestKind::Get),
        ensures
            r matches Ok(g) ==> spec_finish(JsiiRequestKind::Get, ev@) == Ok::<
                SpecKernelResponse,
                SpecClientError,
            >(SpecKernelResponse::Get(g.value@)),
            r matches Err(e) ==> spec_finish(JsiiRequestKind::Get, ev@) == Err::<
                SpecKernelResponse,
                SpecClientError,
            >(e@),
            final(self).spec_pending() is None,
            final(self).spec_runtime_state() == (if ev@ is Closed {
                RuntimeState::Crashed
            } else {
                RuntimeState::Ready
            }),
    {
        match self.receive(ev) {
            Err(e) => Err(e),
            Ok(kr) => match kr {
                JsiiKernelResponse::Get(g) => Ok(g),
                _ => unreached(),
            },
        }
    }

    /// Send a property write; finish it with [`Self::finish_set`].
    pub fn set_property(&mut self, request: JsiiSetRequest) -> (line: String)
        requires
            old(self).spec_idle(),
        ensures
            line@ == spec_request_line(JsiiRequest::SetProp(request)),
            final(self).spec_awaiting(JsiiRequestKind::SetProp),
    {
        self.send_request(JsiiRequest::SetProp(request))
    }

    /// Finish a property write: the write's empty acknowledgement, or the
    /// error [`spec_finish`] assigns to the event.
    pub fn finish_set(&mut self, ev: ReadEvent) -> (r: Result<JsiiSetResponse, JsiiClientError>)
        requires
            old(self).spec_awaiting(JsiiRequestKind::SetProp),
        ensures
            r matches Ok(_) ==> spec_finish(JsiiRequestKind::SetProp, ev@) == Ok::<
                SpecKernelResponse,
                SpecClientError,
            >(SpecKernelResponse::SetProp),
            r matches Err(e) ==> spec_finish(JsiiRequestKind::SetProp, ev@) == Err::<
                SpecKernelResponse,
                SpecClientError,
            >(e@),
            final(self).spec_pending() is None,
            final(self).spec_runtime_state() == (if ev@ is Closed {
                RuntimeState::Crashed
            } else {
                RuntimeState::Ready
            }),
    {
        match self.receive(ev) {
            Err(e) => Err(e),
            Ok(kr) => match kr {
                JsiiKernelResponse::SetProp(s) => Ok(s),
                _ => unreached(),
            },
        }
    }
}

/// Property get/set round trip, seen at the wire: when the kernel,
/// answering a property read, echoes under `value` exactly the value the
/// host last wrote, the read yields that value unchanged — and the typed
/// conversions' own contracts then give back the written number, text,
/// boolean or absence. The reply line here is the canonical encoding of
/// `{"ok":{"value":` the echoed value `}}`.
pub proof fn lemma_get_round_trip(v: SpecJson)
    requires
        crate::json::spec_json_wf(v),
    ensures
        spec_finish(
            JsiiRequestKind::Get,
            SpecReadEvent::Line(
                crate::json::spec_encode(
                    SpecJson::Obj(
                        seq![("ok"@, SpecJson::Obj(seq![("value"@, v)]))],
                    ),
                ),
            ),
        ) == Ok::<SpecKernelResponse, SpecClientError>(SpecKernelResponse::Get(v)),
{
    let inner = SpecJson::Obj(seq![("value"@, v)]);
    let outer = SpecJson::Obj(seq![("ok"@, inner)]);
    assert(crate::json::spec_json_wf(inner)) by {
        assert(forall|k: int|
            0 <= k < seq![("value"@, v)].len() ==> crate::json::spec_json_wf(
                #[trigger] seq![("value"@, v)][k].1,
            ));
    }
    assert(crate::json::spec_json_wf(outer)) by {
        assert(forall|k: int|
            0 <= k < seq![("ok"@, inner)].len() ==> crate::json::spec_json_wf(
                #[trigger] seq![("ok"@, inner)][k].1,
            ));
    }
    crate::json::lemma_parse_encode(outer);
    proof_strlit_facts();
    assert(crate::json::spec_obj_get(seq![("ok"@, inner)], "hello"@) is None) by {
        assert("ok"@ != "hello"@);
        assert(seq![("ok"@, inner)][0].0 == "ok"@);
        assert(seq![("ok"@, inner)].drop_first() =~= Seq::<(Seq<char>, SpecJson)>::empty());
        assert(crate::json::spec_obj_get(
            Seq::<(Seq<char>, SpecJson)>::empty(),
            "hello"@,
        ) is None);
    }
    assert(crate::json::spec_obj_get(seq![("ok"@, inner)], "ok"@) == Some(inner));
    assert(crate::json::spec_obj_get(seq![("value"@, v)], "value"@) == Some(v));
    assert(crate::api::spec_decode_response(outer) == Some(SpecResponse::Okay(inner)));
    assert(spec_narrow(JsiiRequestKind::Get, inner) == Some(SpecKernelResponse::Get(v)));
}

proof fn proof_strlit_facts()
    ensures
        "ok"@ != "hello"@,
{
    reveal_strlit("ok");
    reveal_strlit("hello");
    assert("ok"@.len() == 2);
    assert("hello"@.len() == 5);
}

/// An operation never accepts a payload of another family: whenever a
/// success payload lacks the `result` member — as every get-family
/// payload does — finishing an invoke refuses it as an unexpected kernel
/// response rather than returning it.
pub proof fn lemma_invoke_refuses_get_shape(ms: Seq<(Seq<char>, SpecJson)>)
    requires
        crate::json::spec_obj_get(ms, "result"@) is None,
    ensures
        spec_narrow(JsiiRequestKind::Invoke, SpecJson::Obj(ms)) is None,
{
}

} // verus!
