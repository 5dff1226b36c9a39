//! The wire protocol data model.
//!
//! Requests carry their operation in a distinguished `api` field; responses
//! are untagged, so their shape is recovered from which fields are present
//! (the envelope) and from the request that was just sent (the kernel
//! result, see the client facade). Object handles travel as single-member
//! objects under the reserved `$jsii.byref` key.

use vstd::prelude::*;

use crate::json::JsonValue;
use crate::json::SpecJson;
use crate::json::clone_json;
use crate::json::clone_values;
use crate::json::obj_get;
use crate::json::spec_obj_get;
use crate::json::str_eq;
use crate::json::views_of_members;
use crate::json::views_of_values;

verus! {

/// An opaque handle to an object owned by the kernel. The token is minted
/// by the kernel and never interpreted by the host.
#[derive(Debug)]
pub struct JsiiObjRef {
    ref_id: String,
}

impl View for JsiiObjRef {
    type V = Seq<char>;

    closed spec fn view(&self) -> Seq<char> {
        self.ref_id@
    }
}

impl JsiiObjRef {
    /// Wrap a handle token received from the kernel.
    pub fn new(ref_id: String) -> (r: JsiiObjRef)
        ensures
            r@ == ref_id@,
    {
        JsiiObjRef { ref_id }
    }

    /// The handle's token, for display and for comparison by equality.
    pub fn ref_id(&self) -> (r: &String)
        ensures
            r@ == self@,
    {
        &self.ref_id
    }

    /// A second handle to the same kernel object.
    pub fn duplicate(&self) -> (r: JsiiObjRef)
        ensures
            r@ == self@,
    {
        JsiiObjRef { ref_id: self.ref_id.clone() }
    }
}

/// The kernel's one-time greeting, the first line it writes.
#[derive(Debug)]
pub struct JsiiHelloResponse {
    pub hello: String,
}

/// The result of loading a module: the assembly's name and how many types
/// it brought.
#[derive(Debug)]
pub struct JsiiLoadResponse {
    pub assembly: String,
    pub types: i64,
}

pub struct SpecLoadResponse {
    pub assembly: Seq<char>,
    pub types: int,
}

impl View for JsiiLoadResponse {
    type V = SpecLoadResponse;

    open spec fn view(&self) -> SpecLoadResponse {
        SpecLoadResponse { assembly: self.assembly@, types: self.types as int }
    }
}

/// The result of reading a property.
#[derive(Debug)]
pub struct JsiiGetResponse {
    pub value: JsonValue,
}

/// The result of invoking a method.
#[derive(Debug)]
pub struct JsiiInvokeResponse {
    pub result: JsonValue,
}

/// The identifier of a call begun asynchronously.
#[derive(Debug)]
pub struct JsiiBeginResponse {
    pub promiseid: String,
}

/// The result of finishing an asynchronous call.
#[derive(Debug)]
pub struct JsiiEndResponse {
    pub result: JsonValue,
}

/// A kernel-initiated call into the host: a callback identifier, an opaque
/// cookie, and exactly one embedded invoke, get or set payload.
#[derive(Debug)]
pub struct JsiiCallbackResponse {
    pub cbid: String,
    pub cookie: Option<String>,
    pub invoke: Option<JsiiInvokeRequest>,
    pub get: Option<JsiiGetRequest>,
    pub set: Option<JsiiSetRequest>,
}

pub struct SpecCallbackResponse {
    pub cbid: Seq<char>,
    pub cookie: Option<Seq<char>>,
    pub invoke: Option<SpecInvokeRequest>,
    pub get: Option<SpecGetRequest>,
    pub set: Option<SpecSetRequest>,
}

impl View for JsiiCallbackResponse {
    type V = SpecCallbackResponse;

    open spec fn view(&self) -> SpecCallbackResponse {
        SpecCallbackResponse {
            cbid: self.cbid@,
            cookie: match self.cookie {
                Some(c) => Some(c@),
                None => None,
            },
            invoke: match self.invoke {
                Some(r) => Some(r@),
                None => None,
            },
            get: match self.get {
                Some(r) => Some(r@),
                None => None,
            },
            set: match self.set {
                Some(r) => Some(r@),
                None => None,
            },
        }
    }
}

/// The callbacks pending on the kernel side.
#[derive(Debug)]
pub struct JsiiCallbacksResponse {
    pub callbacks: Vec<JsiiCallbackResponse>,
}

impl View for JsiiCallbacksResponse {
    type V = Seq<SpecCallbackResponse>;

    open spec fn view(&self) -> Seq<SpecCallbackResponse> {
        Seq::new(
            self.callbacks@.len(),
            |i: int|
                if 0 <= i < self.callbacks@.len() {
                    self.callbacks@[i]@
                } else {
                    SpecCallbackResponse {
                        cbid: Seq::empty(),
                        cookie: None,
                        invoke: None,
                        get: None,
                        set: None,
                    }
                },
        )
    }
}

/// Acknowledgement of a completed callback.
#[derive(Debug)]
pub struct JsiiCompleteResponse {
    pub cbid: String,
}

/// The kernel's naming information for an assembly.
#[derive(Debug)]
pub struct JsiiNamingResponse {
    pub assembly: String,
}

/// Process-wide object statistics.
#[derive(Debug)]
pub struct JsiiStatsResponse {
    pub object_count: i64,
}

/// The (empty) result of writing a property.
#[derive(Debug)]
pub struct JsiiSetResponse {}

/// The (empty) result of deleting an object.
#[derive(Debug)]
pub struct JsiiDelResponse {}

/// A kernel-side failure: a message and, when available, a stack trace.
/// Terminal for the request that triggered it only.
#[derive(Debug)]
pub struct JsiiErrorResponse {
    pub error: String,
    pub stack: Option<String>,
}

pub struct SpecErrorResponse {
    pub error: Seq<char>,
    pub stack: Option<Seq<char>>,
}

impl View for JsiiErrorResponse {
    type V = SpecErrorResponse;

    open spec fn view(&self) -> SpecErrorResponse {
        SpecErrorResponse {
            error: self.error@,
            stack: match self.stack {
                Some(s) => Some(s@),
                None => None,
            },
        }
    }
}

/// A successful response envelope. The payload is kept as the generic
/// value it arrived as; it is narrowed against the expected result shape
/// of the request that was just sent.
#[derive(Debug)]
pub struct JsiiOkResponse {
    pub ok: JsonValue,
}

/// One line from the kernel, classified by which envelope fields are
/// present.
#[derive(Debug)]
pub enum JsiiResponse {
    Hello(JsiiHelloResponse),
    Okay(JsiiOkResponse),
    Callback { callback: JsiiCallbackResponse },
    Pending { pending: bool },
    Error(JsiiErrorResponse),
}

pub enum SpecResponse {
    Hello(Seq<char>),
    Okay(SpecJson),
    Callback(SpecCallbackResponse),
    Pending(bool),
    Error(SpecErrorResponse),
}

impl View for JsiiResponse {
    type V = SpecResponse;

    open spec fn view(&self) -> SpecResponse {
        match self {
            JsiiResponse::Hello(h) => SpecResponse::Hello(h.hello@),
            JsiiResponse::Okay(o) => SpecResponse::Okay(o.ok@),
            JsiiResponse::Callback { callback } => SpecResponse::Callback(callback@),
            JsiiResponse::Pending { pending } => SpecResponse::Pending(*pending),
            JsiiResponse::Error(e) => SpecResponse::Error(e@),
        }
    }
}

/// A successful kernel result, narrowed to the shape the sent request
/// called for.
#[derive(Debug)]
pub enum JsiiKernelResponse {
    Hello(JsiiHelloResponse),
    Load(JsiiLoadResponse),
    Create(JsiiObjRef),
    Get(JsiiGetResponse),
    Invoke(JsiiInvokeResponse),
    Begin(JsiiBeginResponse),
    End(JsiiEndResponse),
    Callback(JsiiCallbacksResponse),
    Complete(JsiiCompleteResponse),
    Naming(JsiiNamingResponse),
    Stats(JsiiStatsResponse),
    SetProp(JsiiSetResponse),
    Del(JsiiDelResponse),
}

pub enum SpecKernelResponse {
    Hello(Seq<char>),
    Load(SpecLoadResponse),
    Create(Seq<char>),
    Get(SpecJson),
    Invoke(SpecJson),
    Begin(Seq<char>),
    End(SpecJson),
    Callback(Seq<SpecCallbackResponse>),
    Complete(Seq<char>),
    Naming(Seq<char>),
    Stats(int),
    SetProp,
    Del,
}

impl View for JsiiKernelResponse {
    type V = SpecKernelResponse;

    open spec fn view(&self) -> SpecKernelResponse {
        match self {
            JsiiKernelResponse::Hello(h) => SpecKernelResponse::Hello(h.hello@),
            JsiiKernelResponse::Load(l) => SpecKernelResponse::Load(l@),
            JsiiKernelResponse::Create(r) => SpecKernelResponse::Create(r@),
            JsiiKernelResponse::Get(g) => SpecKernelResponse::Get(g.value@),
            JsiiKernelResponse::Invoke(iv) => SpecKernelResponse::Invoke(iv.result@),
            JsiiKernelResponse::Begin(b) => SpecKernelResponse::Begin(b.promiseid@),
            JsiiKernelResponse::End(e) => SpecKernelResponse::End(e.result@),
            JsiiKernelResponse::Callback(cs) => SpecKernelResponse::Callback(cs@),
            JsiiKernelResponse::Complete(c) => SpecKernelResponse::Complete(c.cbid@),
            JsiiKernelResponse::Naming(n) => SpecKernelResponse::Naming(n.assembly@),
            JsiiKernelResponse::Stats(s) => SpecKernelResponse::Stats(s.object_count as int),
            JsiiKernelResponse::SetProp(_) => SpecKernelResponse::SetProp,
            JsiiKernelResponse::Del(_) => SpecKernelResponse::Del,
        }
    }
}

/// A module descriptor: package name, version, and the locator of its
/// packed form.
#[derive(Debug)]
pub struct JsiiModule {
    pub name: String,
    pub version: String,
    pub tarball: String,
}

/// A request to construct an object of a fully qualified type.
#[derive(Debug)]
pub struct JsiiCreateObject {
    pub fqn: String,
    pub args: Vec<JsonValue>,
}

/// A request to invoke a method on a kernel object.
#[derive(Debug)]
pub struct JsiiInvokeRequest {
    pub obj_ref: JsiiObjRef,
    pub method: String,
    pub args: Vec<JsonValue>,
}

pub struct SpecInvokeRequest {
    pub obj_ref: Seq<char>,
    pub method: Seq<char>,
    pub args: Seq<SpecJson>,
}

impl View for JsiiInvokeRequest {
    type V = SpecInvokeRequest;

    open spec fn view(&self) -> SpecInvokeRequest {
        SpecInvokeRequest {
            obj_ref: self.obj_ref@,
            method: self.method@,
            args: views_of_values(self.args@),
        }
    }
}

/// A request to read a property of a kernel object.
#[derive(Debug)]
pub struct JsiiGetRequest {
    pub obj_ref: JsiiObjRef,
    pub property: String,
}

pub struct SpecGetRequest {
    pub obj_ref: Seq<char>,
    pub property: Seq<char>,
}

impl View for JsiiGetRequest {
    type V = SpecGetRequest;

    open spec fn view(&self) -> SpecGetRequest {
        SpecGetRequest { obj_ref: self.obj_ref@, property: self.property@ }
    }
}

/// A request to write a property of a kernel object.
#[derive(Debug)]
pub struct JsiiSetRequest {
    pub obj_ref: JsiiObjRef,
    pub property: String,
    pub value: JsonValue,
}

pub struct SpecSetRequest {
    pub obj_ref: Seq<char>,
    pub property: Seq<char>,
    pub value: SpecJson,
}

impl View for JsiiSetRequest {
    type V = SpecSetRequest;

    open spec fn view(&self) -> SpecSetRequest {
        SpecSetRequest {
            obj_ref: self.obj_ref@,
            property: self.property@,
            value: self.value@,
        }
    }
}

/// One request to the kernel; exactly one is sent per wire line, its
/// variant travelling in the `api` field.
#[derive(Debug)]
pub enum JsiiRequest {
    Invoke(JsiiInvokeRequest),
    Create(JsiiCreateObject),
    Load(JsiiModule),
    Get(JsiiGetRequest),
    SetProp(JsiiSetRequest),
}

/// The operation family of a request, used to pick the expected result
/// shape for the response that answers it.
#[derive(Debug, Clone, Copy, PartialEq, Eq, Structural)]
pub enum JsiiRequestKind {
    Load,
    Create,
    Invoke,
    Get,
    SetProp,
}

impl JsiiRequest {
    /// The operation family of this request.
    pub open spec fn spec_kind(&self) -> JsiiRequestKind {
        match self {
            JsiiRequest::Load(_) => JsiiRequestKind::Load,
            JsiiRequest::Create(_) => JsiiRequestKind::Create,
            JsiiRequest::Invoke(_) => JsiiRequestKind::Invoke,
            JsiiRequest::Get(_) => JsiiRequestKind::Get,
            JsiiRequest::SetProp(_) => JsiiRequestKind::SetProp,
        }
    }

    /// The operation family of this request.
    pub fn kind(&self) -> (k: JsiiRequestKind)
        ensures
            k == self.spec_kind(),
    {
        match self {
            JsiiRequest::Load(_) => JsiiRequestKind::Load,
            JsiiRequest::Create(_) => JsiiRequestKind::Create,
            JsiiRequest::Invoke(_) => JsiiRequestKind::Invoke,
            JsiiRequest::Get(_) => JsiiRequestKind::Get,
            JsiiRequest::SetProp(_) => JsiiRequestKind::SetProp,
        }
    }
}

/// The wire form of a handle: a single-member object under the reserved
/// by-reference key.
pub open spec fn spec_objref_json(token: Seq<char>) -> SpecJson {
    SpecJson::Obj(seq![("$jsii.byref"@, SpecJson::Str(token))])
}

/// The wire form of a request: an object whose `api` member names the
/// operation, followed by the operation's own fields in a fixed order.
pub open spec fn spec_request_json(req: JsiiRequest) -> SpecJson {
    match req {
        JsiiRequest::Load(m) => SpecJson::Obj(
            seq![
                ("api"@, SpecJson::Str("load"@)),
                ("name"@, SpecJson::Str(m.name@)),
                ("version"@, SpecJson::Str(m.version@)),
                ("tarball"@, SpecJson::Str(m.tarball@)),
            ],
        ),
        JsiiRequest::Create(c) => SpecJson::Obj(
            seq![
                ("api"@, SpecJson::Str("create"@)),
                ("fqn"@, SpecJson::Str(c.fqn@)),
                ("args"@, SpecJson::Arr(views_of_values(c.args@))),
            ],
        ),
        JsiiRequest::Invoke(iv) => SpecJson::Obj(
            seq![
                ("api"@, SpecJson::Str("invoke"@)),
                ("objref"@, spec_objref_json(iv.obj_ref@)),
                ("method"@, SpecJson::Str(iv.method@)),
                ("args"@, SpecJson::Arr(views_of_values(iv.args@))),
            ],
        ),
        JsiiRequest::Get(g) => SpecJson::Obj(
            seq![
                ("api"@, SpecJson::Str("get"@)),
                ("objref"@, spec_objref_json(g.obj_ref@)),
                ("property"@, SpecJson::Str(g.property@)),
            ],
        ),
        JsiiRequest::SetProp(st) => SpecJson::Obj(
            seq![
                ("api"@, SpecJson::Str("set"@)),
                ("objref"@, spec_objref_json(st.obj_ref@)),
                ("property"@, SpecJson::Str(st.property@)),
                ("value"@, st.value@),
            ],
        ),
    }
}

impl JsiiObjRef {
    /// This handle's wire form.
    pub fn to_json(&self) -> (r: JsonValue)
        ensures
            r@ == spec_objref_json(self@),
    {
        let mut ms: Vec<(String, JsonValue)> = Vec::new();
        ms.push((String::from_str("$jsii.byref"), JsonValue::Str(self.ref_id.clone())));
        proof {
            assert(views_of_members(ms@) =~= seq![("$jsii.byref"@, SpecJson::Str(self@))]);
        }
        JsonValue::Obj(ms)
    }
}

/// Build the wire value of one request.
pub fn request_to_json(req: JsiiRequest) -> (r: JsonValue)
    ensures
        r@ == spec_request_json(req),
{
    match req {
        JsiiRequest::Load(m) => {
            let mut ms: Vec<(String, JsonValue)> = Vec::new();
            ms.push((String::from_str("api"), JsonValue::Str(String::from_str("load"))));
            ms.push((String::from_str("name"), JsonValue::Str(m.name)));
            ms.push((String::from_str("version"), JsonValue::Str(m.version)));
            ms.push((String::from_str("tarball"), JsonValue::Str(m.tarball)));
            proof {
                assert(views_of_members(ms@) =~= seq![
                    ("api"@, SpecJson::Str("load"@)),
                    ("name"@, SpecJson::Str(m.name@)),
                    ("version"@, SpecJson::Str(m.version@)),
                    ("tarball"@, SpecJson::Str(m.tarball@)),
                ]);
            }
            JsonValue::Obj(ms)
        },
        JsiiRequest::Create(c) => {
            let mut ms: Vec<(String, JsonValue)> = Vec::new();
            ms.push((String::from_str("api"), JsonValue::Str(String::from_str("create"))));
            ms.push((String::from_str("fqn"), JsonValue::Str(c.fqn)));
            ms.push((String::from_str("args"), JsonValue::Arr(c.args)));
            proof {
                assert(views_of_members(ms@) =~= seq![
                    ("api"@, SpecJson::Str("create"@)),
                    ("fqn"@, SpecJson::Str(c.fqn@)),
                    ("args"@, SpecJson::Arr(views_of_values(c.args@))),
                ]);
            }
            JsonValue::Obj(ms)
        },
        JsiiRequest::Invoke(iv) => {
            let objref = iv.obj_ref.to_json();
            let mut ms: Vec<(String, JsonValue)> = Vec::new();
            ms.push((String::from_str("api"), JsonValue::Str(String::from_str("invoke"))));
            ms.push((String::from_str("objref"), objref));
            ms.push((String::from_str("method"), JsonValue::Str(iv.method)));
            ms.push((String::from_str("args"), JsonValue::Arr(iv.args)));
            proof {
                assert(views_of_members(ms@) =~= seq![
                    ("api"@, SpecJson::Str("invoke"@)),
                    ("objref"@, spec_objref_json(iv.obj_ref@)),
                    ("method"@, SpecJson::Str(iv.method@)),
                    ("args"@, SpecJson::Arr(views_of_values(iv.args@))),
                ]);
            }
            JsonValue::Obj(ms)
        },
        JsiiRequest::Get(g) => {
            let objref = g.obj_ref.to_json();
            let mut ms: Vec<(String, JsonValue)> = Vec::new();
            ms.push((String::from_str("api"), JsonValue::Str(String::from_str("get"))));
            ms.push((String::from_str("objref"), objref));
            ms.push((String::from_str("property"), JsonValue::Str(g.property)));
            proof {
                assert(views_of_members(ms@) =~= seq![
                    ("api"@, SpecJson::Str("get"@)),
                    ("objref"@, spec_objref_json(g.obj_ref@)),
                    ("property"@, SpecJson::Str(g.property@)),
                ]);
            }
            JsonValue::Obj(ms)
        },
        JsiiRequest::SetProp(st) => {
            let objref = st.obj_ref.to_json();
            let mut ms: Vec<(String, JsonValue)> = Vec::new();
            ms.push((String::from_str("api"), JsonValue::Str(String::from_str("set"))));
            ms.push((String::from_str("objref"), objref));
            ms.push((String::from_str("property"), JsonValue::Str(st.property)));
            ms.push((String::from_str("value"), st.value));
            proof {
                assert(views_of_members(ms@) =~= seq![
                    ("api"@, SpecJson::Str("set"@)),
                    ("objref"@, spec_objref_json(st.obj_ref@)),
                    ("property"@, SpecJson::Str(st.property@)),
                    ("value"@, st.value@),
                ]);
            }
            JsonValue::Obj(ms)
        },
    }
}

/// The request's own carried values are representable. It holds of every
/// request the crate's constructors can build: a number that the integer
/// model does not hold is only ever wrapped through its validating
/// constructor.
pub open spec fn spec_request_values_wf(req: JsiiRequest) -> bool {
    match req {
        JsiiRequest::Load(_) => true,
        JsiiRequest::Create(c) => crate::json::spec_values_wf(views_of_values(c.args@)),
        JsiiRequest::Invoke(iv) => crate::json::spec_values_wf(views_of_values(iv.args@)),
        JsiiRequest::Get(_) => true,
        JsiiRequest::SetProp(st) => crate::json::spec_json_wf(st.value@),
    }
}

/// A request whose carried values are representable has a representable
/// wire value: the envelope adds only text and handle objects.
pub proof fn lemma_request_json_wf(req: JsiiRequest)
    requires
        spec_request_values_wf(req),
    ensures
        crate::json::spec_json_wf(spec_request_json(req)),
{
    match req {
        JsiiRequest::Load(m) => {
            let ms = seq![
                ("api"@, SpecJson::Str("load"@)),
                ("name"@, SpecJson::Str(m.name@)),
                ("version"@, SpecJson::Str(m.version@)),
                ("tarball"@, SpecJson::Str(m.tarball@)),
            ];
            assert forall|k: int| 0 <= k < ms.len() implies crate::json::spec_json_wf(
                #[trigger] ms[k].1,
            ) by {
                assert(ms[k].1 is Str);
            }
        },
        JsiiRequest::Create(c) => {
            let ms = seq![
                ("api"@, SpecJson::Str("create"@)),
                ("fqn"@, SpecJson::Str(c.fqn@)),
                ("args"@, SpecJson::Arr(views_of_values(c.args@))),
            ];
            assert forall|k: int| 0 <= k < ms.len() implies crate::json::spec_json_wf(
                #[trigger] ms[k].1,
            ) by {
                if k < 2 {
                    assert(ms[k].1 is Str);
                } else {
                    assert(ms[k].1 == SpecJson::Arr(views_of_values(c.args@)));
                }
            }
        },
        JsiiRequest::Invoke(iv) => {
            lemma_objref_json_wf(iv.obj_ref@);
            let ms = seq![
                ("api"@, SpecJson::Str("invoke"@)),
                ("objref"@, spec_objref_json(iv.obj_ref@)),
                ("method"@, SpecJson::Str(iv.method@)),
                ("args"@, SpecJson::Arr(views_of_values(iv.args@))),
            ];
            assert forall|k: int| 0 <= k < ms.len() implies crate::json::spec_json_wf(
                #[trigger] ms[k].1,
            ) by {
                if k == 1 {
                    assert(ms[k].1 == spec_objref_json(iv.obj_ref@));
                } else if k == 3 {
                    assert(ms[k].1 == SpecJson::Arr(views_of_values(iv.args@)));
                } else {
                    assert(ms[k].1 is Str);
                }
            }
        },
        JsiiRequest::Get(g) => {
            lemma_objref_json_wf(g.obj_ref@);
            let ms = seq![
                ("api"@, SpecJson::Str("get"@)),
                ("objref"@, spec_objref_json(g.obj_ref@)),
                ("property"@, SpecJson::Str(g.property@)),
            ];
            assert forall|k: int| 0 <= k < ms.len() implies crate::json::spec_json_wf(
                #[trigger] ms[k].1,
            ) by {
                if k == 1 {
                    assert(ms[k].1 == spec_objref_json(g.obj_ref@));
                } else {
                    assert(ms[k].1 is Str);
                }
            }
        },
        JsiiRequest::SetProp(st) => {
            lemma_objref_json_wf(st.obj_ref@);
            let ms = seq![
                ("api"@, SpecJson::Str("set"@)),
                ("objref"@, spec_objref_json(st.obj_ref@)),
                ("property"@, SpecJson::Str(st.property@)),
                ("value"@, st.value@),
            ];
            assert forall|k: int| 0 <= k < ms.len() implies crate::json::spec_json_wf(
                #[trigger] ms[k].1,
            ) by {
                if k == 1 {
                    assert(ms[k].1 == spec_objref_json(st.obj_ref@));
                } else if k == 3 {
                    assert(ms[k].1 == st.value@);
                } else {
                    assert(ms[k].1 is Str);
                }
            }
        },
    }
}

proof fn lemma_objref_json_wf(token: Seq<char>)
    ensures
        crate::json::spec_json_wf(spec_objref_json(token)),
{
    let ms = seq![("$jsii.byref"@, SpecJson::Str(token))];
    assert forall|k: int| 0 <= k < ms.len() implies crate::json::spec_json_wf(
        #[trigger] ms[k].1,
    ) by {
        assert(ms[k].1 is Str);
    }
}

/// Decode a handle: exactly one member, under the reserved key, holding
/// the token. (The handle is the one wire form the protocol fixes as a
/// single-member object.)
pub open spec fn spec_decode_objref(v: SpecJson) -> Option<Seq<char>> {
    match v {
        SpecJson::Obj(ms) => if ms.len() == 1 && ms[0].0 == "$jsii.byref"@ {
            match ms[0].1 {
                SpecJson::Str(t) => Some(t),
                _ => None,
            }
        } else {
            None
        },
        _ => None,
    }
}

/// A required text member.
pub open spec fn spec_req_text(ms: Seq<(Seq<char>, SpecJson)>, key: Seq<char>) -> Option<
    Seq<char>,
> {
    match spec_obj_get(ms, key) {
        Some(SpecJson::Str(s)) => Some(s),
        _ => None,
    }
}

/// An optional text member: absent or null is the empty case, text is the
/// present case, any other shape refuses the whole decode.
pub open spec fn spec_opt_text(ms: Seq<(Seq<char>, SpecJson)>, key: Seq<char>) -> Option<
    Option<Seq<char>>,
> {
    match spec_obj_get(ms, key) {
        None => Some(None),
        Some(SpecJson::Null) => Some(None),
        Some(SpecJson::Str(s)) => Some(Some(s)),
        Some(_) => None,
    }
}

/// Decode an embedded invoke payload: handle, method name, argument list.
pub open spec fn spec_decode_invoke_req(v: SpecJson) -> Option<SpecInvokeRequest> {
    match v {
        SpecJson::Obj(ms) => match (
            spec_obj_get(ms, "objref"@),
            spec_req_text(ms, "method"@),
            spec_obj_get(ms, "args"@),
        ) {
            (Some(o), Some(m), Some(SpecJson::Arr(args))) => match spec_decode_objref(o) {
                Some(t) => Some(SpecInvokeRequest { obj_ref: t, method: m, args }),
                None => None,
            },
            _ => None,
        },
        _ => None,
    }
}

/// Decode an embedded get payload: handle and property name.
pub open spec fn spec_decode_get_req(v: SpecJson) -> Option<SpecGetRequest> {
    match v {
        SpecJson::Obj(ms) => match (spec_obj_get(ms, "objref"@), spec_req_text(ms, "property"@)) {
            (Some(o), Some(p)) => match spec_decode_objref(o) {
                Some(t) => Some(SpecGetRequest { obj_ref: t, property: p }),
                None => None,
            },
            _ => None,
        },
        _ => None,
    }
}

/// Decode an embedded set payload: handle, property name and the value.
pub open spec fn spec_decode_set_req(v: SpecJson) -> Option<SpecSetRequest> {
    match v {
        SpecJson::Obj(ms) => match (
            spec_obj_get(ms, "objref"@),
            spec_req_text(ms, "property"@),
            spec_obj_get(ms, "value"@),
        ) {
            (Some(o), Some(p), Some(val)) => match spec_decode_objref(o) {
                Some(t) => Some(SpecSetRequest { obj_ref: t, property: p, value: val }),
                None => None,
            },
            _ => None,
        },
        _ => None,
    }
}

/// Decode a callback: its identifier, the optional cookie, and the
/// embedded invoke, get or set payloads, each absent or null standing for
/// none.
pub open spec fn spec_decode_callback(v: SpecJson) -> Option<SpecCallbackResponse> {
    match v {
        SpecJson::Obj(ms) => match (spec_req_text(ms, "cbid"@), spec_opt_text(ms, "cookie"@)) {
            (Some(cbid), Some(cookie)) => {
                let inv = match spec_obj_get(ms, "invoke"@) {
                    None => Some(None),
                    Some(SpecJson::Null) => Some(None),
                    Some(x) => match spec_decode_invoke_req(x) {
                        Some(r) => Some(Some(r)),
                        None => None,
                    },
                };
                let get = match spec_obj_get(ms, "get"@) {
                    None => Some(None),
                    Some(SpecJson::Null) => Some(None),
                    Some(x) => match spec_decode_get_req(x) {
                        Some(r) => Some(Some(r)),
                        None => None,
                    },
                };
                let set = match spec_obj_get(ms, "set"@) {
                    None => Some(None),
                    Some(SpecJson::Null) => Some(None),
                    Some(x) => match spec_decode_set_req(x) {
                        Some(r) => Some(Some(r)),
                        None => None,
                    },
                };
                match (inv, get, set) {
                    (Some(i2), Some(g2), Some(s2)) => Some(
                        SpecCallbackResponse {
                            cbid,
                            cookie,
                            invoke: i2,
                            get: g2,
                            set: s2,
                        },
                    ),
                    _ => None,
                }
            },
            _ => None,
        },
        _ => None,
    }
}

/// Classify one response line by which envelope member is present, in the
/// policy order hello, ok, callback, pending, error. A present member of
/// the wrong shape refuses the line; it is never passed over in favour of
/// a later member.
pub open spec fn spec_decode_response(v: SpecJson) -> Option<SpecResponse> {
    match v {
        SpecJson::Obj(ms) => match spec_obj_get(ms, "hello"@) {
            Some(h) => match h {
                SpecJson::Str(hs) => Some(SpecResponse::Hello(hs)),
                _ => None,
            },
            None => match spec_obj_get(ms, "ok"@) {
                Some(payload) => Some(SpecResponse::Okay(payload)),
                None => match spec_obj_get(ms, "callback"@) {
                    Some(cb) => match spec_decode_callback(cb) {
                        Some(c) => Some(SpecResponse::Callback(c)),
                        None => None,
                    },
                    None => match spec_obj_get(ms, "pending"@) {
                        Some(p) => match p {
                            SpecJson::Bool(b) => Some(SpecResponse::Pending(b)),
                            _ => None,
                        },
                        None => match (spec_obj_get(ms, "error"@), spec_opt_text(ms, "stack"@)) {
                            (Some(SpecJson::Str(e)), Some(stk)) => Some(
                                SpecResponse::Error(SpecErrorResponse { error: e, stack: stk }),
                            ),
                            _ => None,
                        },
                    },
                },
            },
        },
        _ => None,
    }
}

/// Narrow a successful kernel payload against the result shape the given
/// request family calls for; any other shape is refused, never coerced.
pub open spec fn spec_narrow(kind: JsiiRequestKind, v: SpecJson) -> Option<SpecKernelResponse> {
    match kind {
        JsiiRequestKind::Load => match v {
            SpecJson::Obj(ms) => match (spec_req_text(ms, "assembly"@), spec_obj_get(ms, "types"@)) {
                (Some(a), Some(SpecJson::Int(t))) => if t >= 0 {
                    Some(SpecKernelResponse::Load(SpecLoadResponse { assembly: a, types: t }))
                } else {
                    None
                },
                _ => None,
            },
            _ => None,
        },
        JsiiRequestKind::Create => match spec_decode_objref(v) {
            Some(t) => Some(SpecKernelResponse::Create(t)),
            None => None,
        },
        JsiiRequestKind::Invoke => match v {
            SpecJson::Obj(ms) => match spec_obj_get(ms, "result"@) {
                Some(rv) => Some(SpecKernelResponse::Invoke(rv)),
                None => None,
            },
            _ => None,
        },
        JsiiRequestKind::Get => match v {
            SpecJson::Obj(ms) => match spec_obj_get(ms, "value"@) {
                Some(gv) => Some(SpecKernelResponse::Get(gv)),
                None => None,
            },
            _ => None,
        },
        JsiiRequestKind::SetProp => match v {
            SpecJson::Obj(ms) => if ms.len() == 0 {
                Some(SpecKernelResponse::SetProp)
            } else {
                None
            },
            _ => None,
        },
    }
}

/// Decode a handle from its wire form.
#[verifier::rlimit(50)]
#[verifier::spinoff_prover]
pub fn decode_objref(v: &JsonValue) -> (r: Option<JsiiObjRef>)
    ensures
        r matches Some(o) ==> spec_decode_objref(v@) == Some(o@),
        r is None ==> spec_decode_objref(v@) is None,
{
    match v {
        JsonValue::Obj(ms) => {
            if ms.len() == 1 {
                proof {
                    assert(views_of_members(ms@)[0] == (ms@[0].0@, ms@[0].1@));
                }
                if str_eq(&ms[0].0, "$jsii.byref") {
                    match &ms[0].1 {
                        JsonValue::Str(t) => Some(JsiiObjRef::new(t.clone())),
                        _ => {
                            proof {
                                assert(!(ms@[0].1@ is Str));
                                assert(spec_decode_objref(v@) is None);
                            }
                            None
                        },
                    }
                } else {
                    proof {
                        assert(spec_decode_objref(v@) is None);
                    }
                    None
                }
            } else {
                proof {
                    assert(v@ == SpecJson::Obj(views_of_members(ms@)));
                    assert(views_of_members(ms@).len() == ms@.len());
                    assert(spec_decode_objref(v@) is None);
                }
                None
            }
        },
        _ => {
            proof {
                assert(!(v@ is Obj));
            }
            None
        },
    }
}

/// Decode an optional text member as [`spec_opt_text`] says.
fn opt_text_field(ms: &Vec<(String, JsonValue)>, key: &str) -> (r: Option<Option<String>>)
    ensures
        r matches Some(o) ==> spec_opt_text(views_of_members(ms@), key@) == Some(
            match o {
                Some(s) => Some(s@),
                None => None,
            },
        ),
        r is None ==> spec_opt_text(views_of_members(ms@), key@) is None,
{
    match obj_get(ms, key) {
        None => Some(None),
        Some(x) => match x {
            JsonValue::Null => Some(None),
            JsonValue::Str(s) => Some(Some(s.clone())),
            _ => None,
        },
    }
}

/// Decode an embedded invoke payload.
pub fn decode_invoke_req(v: &JsonValue) -> (r: Option<JsiiInvokeRequest>)
    ensures
        r matches Some(q) ==> spec_decode_invoke_req(v@) == Some(q@),
        r is None ==> spec_decode_invoke_req(v@) is None,
{
    match v {
        JsonValue::Obj(ms) => match (obj_get(ms, "objref"), obj_get(ms, "method"), obj_get(
            ms,
            "args",
        )) {
            (Some(o), Some(m), Some(a)) => match (m, a) {
                (JsonValue::Str(mstr), JsonValue::Arr(argv)) => match decode_objref(o) {
                    Some(orf) => Some(
                        JsiiInvokeRequest {
                            obj_ref: orf,
                            method: mstr.clone(),
                            args: clone_values(argv),
                        },
                    ),
                    None => None,
                },
                _ => None,
            },
            _ => None,
        },
        _ => None,
    }
}

/// Decode an embedded get payload.
pub fn decode_get_req(v: &JsonValue) -> (r: Option<JsiiGetRequest>)
    ensures
        r matches Some(q) ==> spec_decode_get_req(v@) == Some(q@),
        r is None ==> spec_decode_get_req(v@) is None,
{
    match v {
        JsonValue::Obj(ms) => match (obj_get(ms, "objref"), obj_get(ms, "property")) {
            (Some(o), Some(p)) => match p {
                JsonValue::Str(pstr) => match decode_objref(o) {
                    Some(orf) => Some(JsiiGetRequest { obj_ref: orf, property: pstr.clone() }),
                    None => None,
                },
                _ => None,
            },
            _ => None,
        },
        _ => None,
    }
}

/// Decode an embedded set payload.
pub fn decode_set_req(v: &JsonValue) -> (r: Option<JsiiSetRequest>)
    ensures
        r matches Some(q) ==> spec_decode_set_req(v@) == Some(q@),
        r is None ==> spec_decode_set_req(v@) is None,
{
    match v {
        JsonValue::Obj(ms) => match (obj_get(ms, "objref"), obj_get(ms, "property"), obj_get(
            ms,
            "value",
        )) {
            (Some(o), Some(p), Some(val)) => match p {
                JsonValue::Str(pstr) => match decode_objref(o) {
                    Some(orf) => Some(
                        JsiiSetRequest {
                            obj_ref: orf,
                            property: pstr.clone(),
                            value: clone_json(val),
                        },
                    ),
                    None => None,
                },
                _ => None,
            },
            _ => None,
        },
        _ => None,
    }
}

/// Decode a callback.
pub fn decode_callback(v: &JsonValue) -> (r: Option<JsiiCallbackResponse>)
    ensures
        r matches Some(cb) ==> spec_decode_callback(v@) == Some(cb@),
        r is None ==> spec_decode_callback(v@) is None,
{
    match v {
        JsonValue::Obj(ms) => {
            let cbid_found: Option<String> = match obj_get(ms, "cbid") {
                Some(x) => match x {
                    JsonValue::Str(s) => Some(s.clone()),
                    _ => None,
                },
                None => None,
            };
            match cbid_found {
                None => None,
                Some(cbid) => match opt_text_field(ms, "cookie") {
                    None => None,
                    Some(cookie) => {
                        let inv: Option<Option<JsiiInvokeRequest>> = match obj_get(ms, "invoke") {
                            None => Some(None),
                            Some(x) => match x {
                                JsonValue::Null => Some(None),
                                _ => match decode_invoke_req(x) {
                                    Some(r) => Some(Some(r)),
                                    None => None,
                                },
                            },
                        };
                        let get: Option<Option<JsiiGetRequest>> = match obj_get(ms, "get") {
                            None => Some(None),
                            Some(x) => match x {
                                JsonValue::Null => Some(None),
                                _ => match decode_get_req(x) {
                                    Some(r) => Some(Some(r)),
                                    None => None,
                                },
                            },
                        };
                        let set: Option<Option<JsiiSetRequest>> = match obj_get(ms, "set") {
                            None => Some(None),
                            Some(x) => match x {
                                JsonValue::Null => Some(None),
                                _ => match decode_set_req(x) {
                                    Some(r) => Some(Some(r)),
                                    None => None,
                                },
                            },
                        };
                        match (inv, get, set) {
                            (Some(i2), Some(g2), Some(s2)) => Some(
                                JsiiCallbackResponse {
                                    cbid,
                                    cookie,
                                    invoke: i2,
                                    get: g2,
                                    set: s2,
                                },
                            ),
                            _ => None,
                        }
                    },
                },
            }
        },
        _ => None,
    }
}

/// Classify one parsed response line by its envelope fields.
pub fn response_from_json(v: &JsonValue) -> (r: Option<JsiiResponse>)
    ensures
        r matches Some(resp) ==> spec_decode_response(v@) == Some(resp@),
        r is None ==> spec_decode_response(v@) is None,
{
    match v {
        JsonValue::Obj(ms) => match obj_get(ms, "hello") {
            Some(h) => match h {
                JsonValue::Str(hs) => Some(
                    JsiiResponse::Hello(JsiiHelloResponse { hello: hs.clone() }),
                ),
                _ => None,
            },
            None => match obj_get(ms, "ok") {
                Some(payload) => Some(JsiiResponse::Okay(JsiiOkResponse { ok: clone_json(payload) })),
                None => match obj_get(ms, "callback") {
                    Some(cb) => match decode_callback(cb) {
                        Some(c) => Some(JsiiResponse::Callback { callback: c }),
                        None => None,
                    },
                    None => match obj_get(ms, "pending") {
                        Some(p) => match p {
                            JsonValue::Bool(b) => Some(JsiiResponse::Pending { pending: *b }),
                            _ => None,
                        },
                        None => match obj_get(ms, "error") {
                            Some(e) => match e {
                                JsonValue::Str(es) => match opt_text_field(ms, "stack") {
                                    Some(stk) => Some(
                                        JsiiResponse::Error(
                                            JsiiErrorResponse { error: es.clone(), stack: stk },
                                        ),
                                    ),
                                    None => None,
                                },
                                _ => None,
                            },
                            None => None,
                        },
                    },
                },
            },
        },
        _ => None,
    }
}

/// Narrow a successful kernel payload against the result shape the given
/// request family calls for.
pub fn kernel_response_from_json(kind: JsiiRequestKind, v: &JsonValue) -> (r: Option<
    JsiiKernelResponse,
>)
    ensures
        r matches Some(k) ==> spec_narrow(kind, v@) == Some(k@),
        r is None ==> spec_narrow(kind, v@) is None,
{
    match kind {
        JsiiRequestKind::Load => match v {
            JsonValue::Obj(ms) => match (obj_get(ms, "assembly"), obj_get(ms, "types")) {
                (Some(a), Some(t)) => match (a, t) {
                    (JsonValue::Str(astr), JsonValue::Int(tn)) => {
                        if *tn >= 0 {
                            Some(
                                JsiiKernelResponse::Load(
                                    JsiiLoadResponse { assembly: astr.clone(), types: *tn },
                                ),
                            )
                        } else {
                            None
                        }
                    },
                    _ => None,
                },
                _ => None,
            },
            _ => None,
        },
        JsiiRequestKind::Create => match decode_objref(v) {
            Some(orf) => Some(JsiiKernelResponse::Create(orf)),
            None => None,
        },
        JsiiRequestKind::Invoke => match v {
            JsonValue::Obj(ms) => match obj_get(ms, "result") {
                Some(rv) => Some(
                    JsiiKernelResponse::Invoke(JsiiInvokeResponse { result: clone_json(rv) }),
                ),
                None => None,
            },
            _ => None,
        },
        JsiiRequestKind::Get => match v {
            JsonValue::Obj(ms) => match obj_get(ms, "value") {
                Some(gv) => Some(
                    JsiiKernelResponse::Get(JsiiGetResponse { value: clone_json(gv) }),
                ),
                None => None,
            },
            _ => None,
        },
        JsiiRequestKind::SetProp => match v {
            JsonValue::Obj(ms) => {
                if ms.len() == 0 {
                    Some(JsiiKernelResponse::SetProp(JsiiSetResponse {}))
                } else {
                    None
                }
            },
            _ => None,
        },
    }
}

} // verus!
