//! Messages, and the transport that carries them.

use vstd::prelude::*;
use crate::coder::Encoder;
use crate::error::RpcError;

verus! {

/// A call or an answer: the method's name and the encoded value.
#[derive(Clone, Debug, PartialEq, Eq)]
pub struct Message {
    pub method: String,
    pub arg: Vec<u8>,
}

/// Carries a call to a remote service and brings the answer back. The
/// transport knows its target. It makes one attempt and reports a failure
/// to reach the target, or an answer that did not come in time, as such.
///
/// An implementation says what its callers may rely on: what it may bring
/// back for a call, and what it may be like behind the call.
pub trait Transport: Sized {
    /// Whether the transport, handed `message` and told to wait no longer
    /// than `timeout_ms` milliseconds, may bring back `r` and be `after`
    /// behind the call. An implementation that says nothing promises
    /// nothing.
    open spec fn carried(
        &self,
        message: Message,
        timeout_ms: Option<u64>,
        after: Self,
        r: Result<Vec<u8>, RpcError>,
    ) -> bool {
        true
    }

    fn send(&mut self, message: Message, timeout_ms: Option<u64>) -> (r: Result<Vec<u8>, RpcError>)
        ensures
            old(self).carried(message, timeout_ms, *final(self), r),
    ;
}

/// What a receiver gave, as a transport brings it back: the bytes of the
/// answer, or the failure.
pub open spec fn brought_back(answer: Result<Message, RpcError>) -> Result<Vec<u8>, RpcError> {
    match answer {
        Ok(m) => Ok(m.arg),
        Err(e) => Err(e),
    }
}

/// The failure that reports a method which the service does not have.
pub fn method_not_handled(service: &'static str, method: &str) -> (e: RpcError)
    ensures
        e matches RpcError::MethodNotHandled { service: s, method: m } && s == service && m@
            == method@,
{
    RpcError::MethodNotHandled { service, method: method.to_owned() }
}

/// The message that carries the bytes written, under the name `method`.
pub fn answer(method: &'static str, e: Encoder) -> (m: Message)
    ensures
        m.method@ == method@,
        m.arg@ == e.written(),
{
    Message { method: method.to_owned(), arg: e.into_inner() }
}

} // verus!
