//! The object-proxy layer.
//!
//! Generated bindings present a kernel object as a native value: a proxy
//! is anything that can produce the object's handle, and the capability
//! methods build the wire requests for a logical method call or property
//! access from that handle. A proxy never holds the client; the shell
//! sends the built request through one client and finishes it there, so
//! one client can back many live proxies, one call at a time. The handle
//! itself is the simplest proxy.

use vstd::prelude::*;

use crate::api::JsiiGetRequest;
use crate::api::JsiiInvokeRequest;
use crate::api::JsiiObjRef;
use crate::api::JsiiSetRequest;
use crate::api::SpecGetRequest;
use crate::api::SpecInvokeRequest;
use crate::api::SpecSetRequest;
use crate::json::JsonValue;
use crate::json::views_of_values;

verus! {

/// A value standing for one kernel-owned object.
pub trait JsiiObject {
    /// The token of the handle this proxy stands for.
    spec fn spec_ref(&self) -> Seq<char>;

    /// This object's handle. A proxy only ever hands out the handle it
    /// was built around; it never makes one up.
    fn get_ref(&self) -> (r: JsiiObjRef)
        ensures
            r@ == self.spec_ref(),
    ;

    /// The wire request that invokes a method on this object.
    fn call_method(&self, method: String, args: Vec<JsonValue>) -> (r: JsiiInvokeRequest)
        ensures
            r@ == (SpecInvokeRequest {
                obj_ref: self.spec_ref(),
                method: method@,
                args: views_of_values(args@),
            }),
    {
        JsiiInvokeRequest { obj_ref: self.get_ref(), method, args }
    }

    /// The wire request that reads a property of this object.
    fn jsii_get_property(&self, property: String) -> (r: JsiiGetRequest)
        ensures
            r@ == (SpecGetRequest { obj_ref: self.spec_ref(), property: property@ }),
    {
        JsiiGetRequest { obj_ref: self.get_ref(), property }
    }

    /// The wire request that writes a property of this object.
    fn jsii_set_property(&self, property: String, value: JsonValue) -> (r: JsiiSetRequest)
        ensures
            r@ == (SpecSetRequest {
                obj_ref: self.spec_ref(),
                property: property@,
                value: value@,
            }),
    {
        JsiiSetRequest { obj_ref: self.get_ref(), property, value }
    }
}

impl JsiiObject for JsiiObjRef {
    open spec fn spec_ref(&self) -> Seq<char> {
        self@
    }

    fn get_ref(&self) -> (r: JsiiObjRef) {
        self.duplicate()
    }
}

} // verus!
