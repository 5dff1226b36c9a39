use jsii_runtime::api::JsiiCreateObject;
use jsii_runtime::api::JsiiGetRequest;
use jsii_runtime::api::JsiiInvokeRequest;
use jsii_runtime::api::JsiiModule;
use jsii_runtime::api::JsiiObjRef;
use jsii_runtime::api::JsiiSetRequest;
use jsii_runtime::client::JsiiClient;
use jsii_runtime::client::JsiiClientError;
use jsii_runtime::json::JsonValue;
use jsii_runtime::json::encode_json;
use jsii_runtime::object::JsiiObject;
use jsii_runtime::runtime::JsiiRuntime;
use jsii_runtime::runtime::JsiiRuntimeError;
use jsii_runtime::runtime::ReadEvent;
use jsii_runtime::runtime::RuntimeState;

fn line(text: &str) -> ReadEvent {
    ReadEvent::Line(format!("{}\n", text))
}

fn ready_runtime() -> JsiiRuntime {
    let mut rt = JsiiRuntime::new();
    rt.handshake(line("{\"hello\":\"kernel@1.0.0\"}"))
        .expect("greeting should complete the handshake");
    rt
}

fn ready_client() -> JsiiClient {
    JsiiClient::new(ready_runtime())
}

fn create_object(client: &mut JsiiClient, fqn: &str, token: &str) -> JsiiObjRef {
    let request_line = client.create_object(JsiiCreateObject {
        fqn: String::from(fqn),
        args: vec![],
    });
    assert!(request_line.ends_with('\n'));
    let reply = format!("{{\"ok\":{{\"$jsii.byref\":\"{}\"}}}}", token);
    client
        .finish_create(line(&reply))
        .expect("mock create reply should narrow to a handle")
}

#[test]
fn handshake_accepts_only_the_greeting() {
    let mut rt = JsiiRuntime::new();
    assert!(rt.handshake(line("{\"hello\":\"kernel@1.0.0\"}")).is_ok());
    assert_eq!(rt.state(), RuntimeState::Ready);
}

#[test]
fn handshake_rejects_other_first_responses() {
    let mut rt = JsiiRuntime::new();
    let r = rt.handshake(line("{\"ok\":{\"assembly\":\"calc\",\"types\":1}}"));
    assert!(matches!(r, Err(JsiiRuntimeError::Handshake(_))));
    assert_eq!(rt.state(), RuntimeState::Failed);
}

#[test]
fn handshake_rejects_unreadable_first_line() {
    let mut rt = JsiiRuntime::new();
    let r = rt.handshake(line("this is not json"));
    assert!(matches!(r, Err(JsiiRuntimeError::BadOutput(_))));
    assert_eq!(rt.state(), RuntimeState::Failed);
}

#[test]
fn handshake_surfaces_an_immediate_crash() {
    let mut rt = JsiiRuntime::new();
    let r = rt.handshake(ReadEvent::Closed {
        stderr: String::from("node: not found"),
    });
    match r {
        Err(JsiiRuntimeError::Crash(diag)) => assert_eq!(diag, "node: not found"),
        other => panic!("expected a crash, got {:?}", other),
    }
    assert_eq!(rt.state(), RuntimeState::Crashed);
}

#[test]
fn load_module_round_trip() {
    let mut client = ready_client();
    let request_line = client.load_module(JsiiModule {
        name: String::from("@scope/jsii-calc-base"),
        version: String::from("0.17.0"),
        tarball: String::from("/tmp/jsii-calc-base@0.17.0.jsii.tgz"),
    });
    assert_eq!(
        request_line,
        "{\"api\":\"load\",\"name\":\"@scope/jsii-calc-base\",\"version\":\"0.17.0\",\
         \"tarball\":\"/tmp/jsii-calc-base@0.17.0.jsii.tgz\"}\n"
    );
    let load = client
        .finish_load(line("{\"ok\":{\"assembly\":\"jsii-calc-base\",\"types\":3}}"))
        .expect("mock load reply should narrow");
    assert_eq!(load.assembly, "jsii-calc-base");
    assert_eq!(load.types, 3);
    assert!(load.types >= 0);
}

#[test]
fn load_rejects_a_negative_type_count() {
    let mut client = ready_client();
    let _ = client.load_module(JsiiModule {
        name: String::from("m"),
        version: String::from("1"),
        tarball: String::from("t"),
    });
    let r = client.finish_load(line("{\"ok\":{\"assembly\":\"m\",\"types\":-1}}"));
    assert!(matches!(r, Err(JsiiClientError::UnexpectedKernelResponse(_))));
}

#[test]
fn create_then_invoke_returns_the_documented_value() {
    let mut client = ready_client();
    let calc = create_object(&mut client, "jsii-calc.Fixture", "Object@10000");
    assert_eq!(calc.ref_id(), "Object@10000");

    // The conformance fixture answers the same value on every call.
    for _ in 0..2 {
        let request_line = client.call_method(calc.call_method(String::from("hey"), vec![]));
        assert_eq!(
            request_line,
            "{\"api\":\"invoke\",\"objref\":{\"$jsii.byref\":\"Object@10000\"},\
             \"method\":\"hey\",\"args\":[]}\n"
        );
        let reply = client
            .finish_invoke(line("{\"ok\":{\"result\":42}}"))
            .expect("mock invoke reply should narrow");
        assert_eq!(reply.to_number().expect("result should be a number"), 42);
    }
}

#[test]
fn invoke_refuses_a_get_shaped_result() {
    let mut client = ready_client();
    let obj = create_object(&mut client, "jsii-calc.Fixture", "Object@1");
    let _ = client.call_method(obj.call_method(String::from("hey"), vec![]));
    let r = client.finish_invoke(line("{\"ok\":{\"value\":42}}"));
    match r {
        Err(JsiiClientError::UnexpectedKernelResponse(v)) => {
            assert_eq!(encode_json(&v), "{\"value\":42}")
        }
        other => panic!("expected the shape to be refused, got {:?}", other),
    }
}

#[test]
fn set_refuses_any_nonempty_payload() {
    let mut client = ready_client();
    let obj = create_object(&mut client, "jsii-calc.Fixture", "Object@1");
    let _ = client.set_property(obj.jsii_set_property(String::from("p"), JsonValue::Int(1)));
    let r = client.finish_set(line("{\"ok\":{\"value\":42}}"));
    match r {
        Err(JsiiClientError::UnexpectedKernelResponse(v)) => {
            assert_eq!(encode_json(&v), "{\"value\":42}")
        }
        other => panic!("expected the payload to be refused, got {:?}", other),
    }
}

#[test]
fn crash_mid_call_surfaces_stderr() {
    let mut client = ready_client();
    let obj = create_object(&mut client, "jsii-calc.Fixture", "Object@1");
    let _ = client.call_method(obj.call_method(String::from("hey"), vec![]));
    let r = client.finish_invoke(ReadEvent::Closed {
        stderr: String::from("TypeError: boom\n    at hey"),
    });
    match r {
        Err(JsiiClientError::Runtime(JsiiRuntimeError::Crash(diag))) => {
            assert!(diag.contains("TypeError: boom"))
        }
        other => panic!("expected a crash, got {:?}", other),
    }
    assert!(!client.is_idle());
}

#[test]
fn property_set_get_round_trip() {
    let mut client = ready_client();
    let obj = create_object(&mut client, "jsii-calc.Fixture", "Object@1");

    let written = [
        JsonValue::Int(128),
        JsonValue::Str(String::from("hello")),
        JsonValue::Bool(true),
        JsonValue::Null,
    ];
    for value in written {
        let echoed = encode_json(&value);
        let set_line = client.set_property(
            obj.jsii_set_property(String::from("prop"), value),
        );
        // The written value travels inside the set line.
        assert!(set_line.contains(&echoed));
        client
            .finish_set(line("{\"ok\":{}}"))
            .expect("mock set reply should narrow");

        let _ = client.get_property(obj.jsii_get_property(String::from("prop")));
        let reply = format!("{{\"ok\":{{\"value\":{}}}}}", echoed);
        let got = client
            .finish_get(line(&reply))
            .expect("mock get reply should narrow");
        // The value read back converts to exactly what was written.
        assert_eq!(encode_json(&got.value), echoed);
    }
}

#[test]
fn primitive_conversions_after_get() {
    let mut client = ready_client();
    let obj = create_object(&mut client, "jsii-calc.Fixture", "Object@1");

    let _ = client.get_property(obj.jsii_get_property(String::from("n")));
    let got = client.finish_get(line("{\"ok\":{\"value\":7}}")).unwrap();
    assert_eq!(got.to_number().unwrap(), 7);
    assert!(matches!(got.to_text(), Err(JsiiClientError::FormatError(_))));

    let _ = client.get_property(obj.jsii_get_property(String::from("s")));
    let got = client.finish_get(line("{\"ok\":{\"value\":\"txt\"}}")).unwrap();
    assert_eq!(got.to_text().unwrap(), "txt");
    assert_eq!(got.to_opt_text().unwrap(), Some(String::from("txt")));
    assert!(matches!(got.to_number(), Err(JsiiClientError::FormatError(_))));

    let _ = client.get_property(obj.jsii_get_property(String::from("b")));
    let got = client.finish_get(line("{\"ok\":{\"value\":false}}")).unwrap();
    assert_eq!(got.to_boolean().unwrap(), false);

    let _ = client.get_property(obj.jsii_get_property(String::from("absent")));
    let got = client.finish_get(line("{\"ok\":{\"value\":null}}")).unwrap();
    assert_eq!(got.to_opt_text().unwrap(), None);
    assert_eq!(got.to_opt_text_seq().unwrap(), None);

    let _ = client.get_property(obj.jsii_get_property(String::from("xs")));
    let got = client
        .finish_get(line("{\"ok\":{\"value\":[\"a\",\"b\"]}}"))
        .unwrap();
    assert_eq!(
        got.to_text_seq().unwrap(),
        vec![String::from("a"), String::from("b")]
    );

    let _ = client.get_property(obj.jsii_get_property(String::from("mixed")));
    let got = client
        .finish_get(line("{\"ok\":{\"value\":[\"a\",1]}}"))
        .unwrap();
    assert!(matches!(
        got.to_text_seq(),
        Err(JsiiClientError::FormatError(_))
    ));
    assert!(matches!(
        got.to_number_seq(),
        Err(JsiiClientError::FormatError(_))
    ));

    let _ = client.get_property(obj.jsii_get_property(String::from("ns")));
    let got = client.finish_get(line("{\"ok\":{\"value\":[3,-4,5]}}")).unwrap();
    assert_eq!(got.to_number_seq().unwrap(), vec![3i64, -4i64, 5i64]);
}

#[test]
fn decimal_results_pass_through() {
    let mut client = ready_client();
    let obj = create_object(&mut client, "jsii-calc.Fixture", "Object@1");
    let _ = client.get_property(obj.jsii_get_property(String::from("ratio")));
    let got = client.finish_get(line("{\"ok\":{\"value\":0.5}}")).unwrap();
    match &got.value {
        JsonValue::Decimal(d) => assert_eq!(d.text(), "0.5"),
        other => panic!("expected an opaque number, got {:?}", other),
    }
    // Nothing converts it: the host never interprets it.
    assert!(matches!(got.to_number(), Err(JsiiClientError::FormatError(_))));
    // It can be written back exactly as it came.
    let set_line = client.set_property(obj.jsii_set_property(String::from("ratio"), got.value));
    assert!(set_line.contains("\"value\":0.5"));
    client.finish_set(line("{\"ok\":{}}")).expect("mock set reply should narrow");
}

#[test]
fn kernel_errors_are_terminal_for_one_request_only() {
    let mut client = ready_client();
    let _ = client.load_module(JsiiModule {
        name: String::from("m"),
        version: String::from("1"),
        tarball: String::from("t"),
    });
    let r = client.finish_load(line(
        "{\"error\":\"Module not found\",\"stack\":\"at load\"}",
    ));
    match r {
        Err(JsiiClientError::Kernel { error, stack }) => {
            assert_eq!(error, "Module not found");
            assert_eq!(stack, Some(String::from("at load")));
        }
        other => panic!("expected a kernel error, got {:?}", other),
    }
    // The session stays usable afterwards.
    assert!(client.is_idle());
    let _ = client.load_module(JsiiModule {
        name: String::from("m"),
        version: String::from("1"),
        tarball: String::from("t"),
    });
    assert!(client
        .finish_load(line("{\"ok\":{\"assembly\":\"m\",\"types\":0}}"))
        .is_ok());
}

#[test]
fn callbacks_are_surfaced_as_unsupported() {
    let mut client = ready_client();
    let obj = create_object(&mut client, "jsii-calc.Fixture", "Object@1");
    let _ = client.call_method(obj.call_method(String::from("hey"), vec![]));
    let r = client.finish_invoke(line(
        "{\"callback\":{\"cbid\":\"cb-1\",\"cookie\":null,\
         \"invoke\":{\"objref\":{\"$jsii.byref\":\"Object@1\"},\"method\":\"virt\",\"args\":[]}}}",
    ));
    match r {
        Err(JsiiClientError::UnsupportedCallback(cb)) => {
            assert_eq!(cb.cbid, "cb-1");
            assert!(cb.cookie.is_none());
            let embedded = cb.invoke.expect("the embedded invoke should decode");
            assert_eq!(embedded.method, "virt");
            assert_eq!(embedded.obj_ref.ref_id(), "Object@1");
        }
        other => panic!("expected the callback to be refused, got {:?}", other),
    }
}

#[test]
fn out_of_context_responses_are_refused() {
    let mut client = ready_client();
    let obj = create_object(&mut client, "jsii-calc.Fixture", "Object@1");
    let _ = client.call_method(obj.call_method(String::from("hey"), vec![]));
    let r = client.finish_invoke(line("{\"pending\":true}"));
    assert!(matches!(r, Err(JsiiClientError::UnexpectedResponse(_))));

    let _ = client.call_method(obj.call_method(String::from("hey"), vec![]));
    let r = client.finish_invoke(line("{\"hello\":\"kernel@1.0.0\"}"));
    assert!(matches!(r, Err(JsiiClientError::UnexpectedResponse(_))));
}

#[test]
fn unreadable_reply_lines_are_refused_but_not_fatal() {
    let mut client = ready_client();
    let obj = create_object(&mut client, "jsii-calc.Fixture", "Object@1");
    let _ = client.call_method(obj.call_method(String::from("hey"), vec![]));
    let r = client.finish_invoke(line("}{ not json"));
    assert!(matches!(
        r,
        Err(JsiiClientError::Runtime(JsiiRuntimeError::BadOutput(_)))
    ));
    assert!(client.is_idle());
}

#[test]
fn request_lines_hold_exactly_one_newline() {
    let mut client = ready_client();
    let obj = create_object(&mut client, "jsii-calc.Fixture", "Object@1");
    let set_line = client.set_property(obj.jsii_set_property(
        String::from("note"),
        JsonValue::Str(String::from("line one\nline \"two\" \\ end")),
    ));
    assert!(set_line.ends_with('\n'));
    assert_eq!(set_line.matches('\n').count(), 1);
    client.finish_set(line("{\"ok\":{}}")).expect("mock set reply should narrow");
}

#[test]
fn terminate_twice_is_idempotent() {
    let mut rt = ready_runtime();
    assert_eq!(rt.kill(), true);
    assert_eq!(rt.state(), RuntimeState::Terminated);
    assert_eq!(rt.kill(), false);
    assert_eq!(rt.state(), RuntimeState::Terminated);
}

#[test]
fn error_families_carry_fixed_labels() {
    let mut rt = JsiiRuntime::new();
    let crash = rt
        .handshake(ReadEvent::Closed {
            stderr: String::from("boom"),
        })
        .unwrap_err();
    assert_eq!(crash.description(), "runtime child process crashed");

    let mut client = ready_client();
    let _ = client.get_property(JsiiGetRequest {
        obj_ref: JsiiObjRef::new(String::from("Object@1")),
        property: String::from("p"),
    });
    let kernel = client
        .finish_get(line("{\"error\":\"nope\"}"))
        .unwrap_err();
    assert_eq!(kernel.description(), "kernel reported an error");

    // A wrapped session failure keeps its own label.
    let mut client = ready_client();
    let _ = client.get_property(JsiiGetRequest {
        obj_ref: JsiiObjRef::new(String::from("Object@1")),
        property: String::from("p"),
    });
    let wrapped = client
        .finish_get(ReadEvent::Closed {
            stderr: String::from("boom"),
        })
        .unwrap_err();
    assert_eq!(wrapped.description(), "runtime child process crashed");
}

#[test]
fn request_lines_for_every_operation() {
    let obj = JsiiObjRef::new(String::from("Object@5"));
    let mut client = ready_client();

    let invoke = JsiiInvokeRequest {
        obj_ref: obj.duplicate(),
        method: String::from("add"),
        args: vec![JsonValue::Int(1), JsonValue::Int(2)],
    };
    let l = client.call_method(invoke);
    assert_eq!(
        l,
        "{\"api\":\"invoke\",\"objref\":{\"$jsii.byref\":\"Object@5\"},\
         \"method\":\"add\",\"args\":[1,2]}\n"
    );
    let _ = client.finish_invoke(line("{\"ok\":{\"result\":3}}")).unwrap();

    let get = JsiiGetRequest {
        obj_ref: obj.duplicate(),
        property: String::from("value"),
    };
    let l = client.get_property(get);
    assert_eq!(
        l,
        "{\"api\":\"get\",\"objref\":{\"$jsii.byref\":\"Object@5\"},\"property\":\"value\"}\n"
    );
    let _ = client.finish_get(line("{\"ok\":{\"value\":3}}")).unwrap();

    let set = JsiiSetRequest {
        obj_ref: obj.duplicate(),
        property: String::from("value"),
        value: JsonValue::Int(9),
    };
    let l = client.set_property(set);
    assert_eq!(
        l,
        "{\"api\":\"set\",\"objref\":{\"$jsii.byref\":\"Object@5\"},\
         \"property\":\"value\",\"value\":9}\n"
    );
    let _ = client.finish_set(line("{\"ok\":{}}")).unwrap();
}
