//! The conformance scenarios of the calculator fixtures, driven against a
//! scripted kernel: the lines a conforming kernel answers with are handed
//! to the client directly.

use jsii_runtime::api::JsiiCreateObject;
use jsii_runtime::api::JsiiObjRef;
use jsii_runtime::client::JsiiClient;
use jsii_runtime::json::JsonValue;
use jsii_runtime::object::JsiiObject;
use jsii_runtime::runtime::JsiiRuntime;
use jsii_runtime::runtime::JsiiRuntimeError;
use jsii_runtime::runtime::ReadEvent;

fn reply(text: &str) -> ReadEvent {
    ReadEvent::Line(format!("{}\n", text))
}

fn new_client() -> Result<JsiiClient, JsiiRuntimeError> {
    let mut rt = JsiiRuntime::new();
    rt.handshake(reply("{\"hello\":\"jsii-runtime@0.17.0\"}"))?;
    Ok(JsiiClient::new(rt))
}

fn load_one(client: &mut JsiiClient, name: &str, version: &str, tarball: &str, types: i64) {
    let _ = client.load_module(jsii_runtime::api::JsiiModule {
        name: String::from(name),
        version: String::from(version),
        tarball: String::from(tarball),
    });
    let answer = format!("{{\"ok\":{{\"assembly\":\"{}\",\"types\":{}}}}}", name, types);
    client.finish_load(reply(&answer)).expect("module should load");
}

fn load_modules(client: &mut JsiiClient) {
    let root_dir = "target/jsii-calc/js";

    load_one(
        client,
        "@scope/jsii-calc-base-of-base",
        "0.17.0",
        &format!("{}/jsii-calc-base-of-base@0.17.0.jsii.tgz", root_dir),
        2,
    );
    load_one(
        client,
        "@scope/jsii-calc-base",
        "0.17.0",
        &format!("{}/jsii-calc-base@0.17.0.jsii.tgz", root_dir),
        3,
    );
    load_one(
        client,
        "@scope/jsii-calc-lib",
        "0.17.0",
        &format!("{}/jsii-calc-lib@0.17.0.jsii.tgz", root_dir),
        7,
    );
    load_one(
        client,
        "@scope/jsii-calc",
        "0.17.0",
        &format!("{}/jsii-calc@0.17.0.jsii.tgz", root_dir),
        30,
    );
}

fn new_instance(
    client: &mut JsiiClient,
    fqn: &str,
    args: Vec<JsonValue>,
    token: &str,
) -> Result<JsiiObjRef, jsii_runtime::client::JsiiClientError> {
    let _ = client.create_object(JsiiCreateObject {
        fqn: String::from(fqn),
        args,
    });
    let answer = format!("{{\"ok\":{{\"$jsii.byref\":\"{}\"}}}}", token);
    client.finish_create(reply(&answer))
}

#[test]
fn very() {
    let mut client = new_client().expect("Error creating jsii client");
    load_modules(&mut client);

    let very = new_instance(
        &mut client,
        "@scope/jsii-calc-base-of-base.Very",
        vec![],
        "Object@10000",
    );
    assert!(very.is_ok(), "Err creating instance of Very");

    let _ = client.call_method(very.unwrap().call_method(String::from("hey"), vec![]));
    let hey_result = client
        .finish_invoke(reply("{\"ok\":{\"result\":42}}"))
        .expect("Error calling hey method")
        .to_number()
        .expect("Error calling hey method");
    assert_eq!(hey_result as i64, 42 as i64);
}

#[test]
fn number() {
    let mut client = new_client().expect("Error creating jsii client");
    load_modules(&mut client);

    let number = new_instance(
        &mut client,
        "@scope/jsii-calc-lib.Number",
        vec![JsonValue::Int(128)],
        "Object@10001",
    )
    .expect("Error creating instance of Number");

    let _ = client.call_method(number.call_method(String::from("typeName"), vec![]));
    let type_name_result = client
        .finish_invoke(reply("{\"ok\":{\"result\":\"Number\"}}"))
        .expect("Error calling typeName method")
        .to_text()
        .expect("Error calling typeName method");
    assert_eq!(&type_name_result, "Number");

    let _ = client.get_property(number.jsii_get_property(String::from("doubleValue")));
    let double_result = client
        .finish_get(reply("{\"ok\":{\"value\":256}}"))
        .expect("Error accessing doubleValue")
        .to_number()
        .expect("Error accessing doubleValue");
    assert_eq!(double_result as i64, 128 * 2);
}
