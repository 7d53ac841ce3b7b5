//! The messages that travel on the worker's queue, and their wire form.
use vstd::prelude::*;

verus! {

#[verifier::external_type_specification]
#[verifier::external_body]
pub struct ExJsonValue(serde_json::Value);

#[verifier::external_type_specification]
#[verifier::external_body]
pub struct ExJsonError(serde_json::Error);

/// What is delivered: a destination URL and a JSON body. Immutable once built.
///
/// The URL is where the body is posted; it is not part of the wire form. A
/// webhook expects the message itself as its request body, and the URL, which
/// may carry a token, stays in the request line.
pub struct Payload {
    url: String,
    body: serde_json::Value,
}

impl Payload {
    pub closed spec fn url_spec(&self) -> Seq<char> {
        self.url@
    }

    pub closed spec fn body_spec(&self) -> serde_json::Value {
        self.body
    }

    pub fn new(url: String, body: serde_json::Value) -> (p: Payload)
        ensures
            p.url_spec() == url@,
            p.body_spec() == body,
    {
        Payload { url, body }
    }

    /// The destination of the POST request.
    pub fn webhook_url(&self) -> (r: &str)
        ensures
            r@ == self.url_spec(),
    {
        self.url.as_str()
    }

    /// The body, as it was given.
    pub fn body(&self) -> (r: &serde_json::Value)
        ensures
            *r == self.body_spec(),
    {
        &self.body
    }
}

/// A control message on the worker's queue.
pub enum WorkerMessage {
    Data(Payload),
    Shutdown,
}

/// The body of a payload could not be written as JSON.
#[derive(Debug, Clone, Copy, PartialEq, Eq, Structural)]
pub struct EncodeError;

/// The JSON text that serde_json writes for a value.
pub uninterp spec fn json_text_of(v: serde_json::Value) -> Seq<char>;

/// Relies on serde_json::to_string: writes the JSON text of a value. On a
/// `Value` it does not fail: object keys are strings, numbers are finite, and
/// the text goes into a `Vec`.
#[verifier::external_body]
fn json_text(v: &serde_json::Value) -> (r: Result<String, serde_json::Error>)
    ensures
        r is Ok,
        r->Ok_0@ == json_text_of(*v),
{
    serde_json::to_string(v)
}

impl Payload {
    /// The body in its wire form: JSON text.
    pub fn wire_body(&self) -> (r: Result<String, EncodeError>)
        ensures
            r is Ok,
            r->Ok_0@ == json_text_of(self.body_spec()),
    {
        match json_text(&self.body) {
            Ok(text) => Ok(text),
            Err(_) => Err(EncodeError),
        }
    }
}

} // verus!
