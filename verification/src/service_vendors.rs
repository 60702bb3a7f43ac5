//! The `ServiceVendors` service: its operations, the trait of its handlers, the
//! receiver that routes messages to a handler, and the sender that calls
//! a remote handler.

use vstd::prelude::*;
use crate::cbor::same_text;
use crate::codec::service_order::{decode_service_order, encode_service_order};
use crate::codec::service_usage::{decode_service_usage, encode_service_usage};
use crate::coder::{Decoder, Encoder};
use crate::error::RpcError;
use crate::grammar::{parse_record, parse_text, record_bytes};
use crate::message::{answer, brought_back, method_not_handled, Message, Transport};
use crate::model::{ServiceOrder, ServiceUsage};
use crate::schema::{Layout, Schema};
use crate::wire::text_bytes;

verus! {

/// The operations of the `ServiceVendors` service.
#[derive(Clone, Copy, Debug, PartialEq, Eq, Structural)]
pub enum ServiceVendorsOperation {
    AuthorizeServiceUsage,
    BuyService,
}

impl ServiceVendorsOperation {
    /// The operation that a receiver knows under `method`.
    pub open spec fn named(method: Seq<char>) -> Option<ServiceVendorsOperation> {
        if method == "AuthorizeServiceUsage"@ {
            Some(ServiceVendorsOperation::AuthorizeServiceUsage)
        } else if method == "BuyService"@ {
            Some(ServiceVendorsOperation::BuyService)
        } else {
            None
        }
    }

    /// The name under which the operation travels between services.
    pub open spec fn wire_name(self) -> &'static str {
        match self {
            ServiceVendorsOperation::AuthorizeServiceUsage => "ServiceVendors.AuthorizeServiceUsage",
            ServiceVendorsOperation::BuyService => "ServiceVendors.BuyService",
        }
    }

    /// Looks an operation up by the name that a receiver knows it under.
    pub fn from_name(method: &str) -> (r: Option<ServiceVendorsOperation>)
        ensures
            r == ServiceVendorsOperation::named(method@),
    {
        if same_text(method, "AuthorizeServiceUsage") {
            Some(ServiceVendorsOperation::AuthorizeServiceUsage)
        } else if same_text(method, "BuyService") {
            Some(ServiceVendorsOperation::BuyService)
        } else {
            None
        }
    }

    /// The name under which the operation travels between services.
    pub fn name(self) -> (r: &'static str)
        ensures
            r == self.wire_name(),
    {
        match self {
            ServiceVendorsOperation::AuthorizeServiceUsage => "ServiceVendors.AuthorizeServiceUsage",
            ServiceVendorsOperation::BuyService => "ServiceVendors.BuyService",
        }
    }

    /// The name under which a receiver knows the operation.
    pub open spec fn bare_name(self) -> &'static str {
        match self {
            ServiceVendorsOperation::AuthorizeServiceUsage => "AuthorizeServiceUsage",
            ServiceVendorsOperation::BuyService => "BuyService",
        }
    }

    /// The name under which a receiver knows the operation.
    pub fn bare(self) -> (r: &'static str)
        ensures
            r == self.bare_name(),
    {
        match self {
            ServiceVendorsOperation::AuthorizeServiceUsage => "AuthorizeServiceUsage",
            ServiceVendorsOperation::BuyService => "BuyService",
        }
    }

    /// The operation that travels under `method`.
    pub open spec fn wired(method: Seq<char>) -> Option<ServiceVendorsOperation> {
        if method == "ServiceVendors.AuthorizeServiceUsage"@ {
            Some(ServiceVendorsOperation::AuthorizeServiceUsage)
        } else if method == "ServiceVendors.BuyService"@ {
            Some(ServiceVendorsOperation::BuyService)
        } else {
            None
        }
    }

    /// Looks an operation up by the name under which it travels.
    pub fn from_wire_name(method: &str) -> (r: Option<ServiceVendorsOperation>)
        ensures
            r == ServiceVendorsOperation::wired(method@),
    {
        if same_text(method, "ServiceVendors.AuthorizeServiceUsage") {
            Some(ServiceVendorsOperation::AuthorizeServiceUsage)
        } else if same_text(method, "ServiceVendors.BuyService") {
            Some(ServiceVendorsOperation::BuyService)
        } else {
            None
        }
    }

    /// A receiver finds each operation under its name.
    pub proof fn lemma_named(self)
        ensures
            ServiceVendorsOperation::named(self.bare_name()@) == Some(self),
    {
        reveal_strlit("AuthorizeServiceUsage");
        reveal_strlit("BuyService");
        assert("AuthorizeServiceUsage"@.len() == 21);
        assert("BuyService"@.len() == 10);
    }
}

/// What an implementation of the `ServiceVendors` service does.
///
/// For each operation an implementation says what its callers may rely
/// on: which answers it may give to a request, and what it may be like
/// behind the call.
pub trait ServiceVendors: Sized {
    /// Whether the handler may answer `r` to `arg` and be `after` behind
    /// the call. An implementation that says nothing promises nothing.
    open spec fn authorize_service_usage_outcome(
        &self,
        arg: ServiceUsage,
        after: Self,
        r: Result<String, RpcError>,
    ) -> bool {
        true
    }

    fn authorize_service_usage(&mut self, arg: &ServiceUsage) -> (r: Result<String, RpcError>)
        ensures
            old(self).authorize_service_usage_outcome(*arg, *final(self), r),
    ;

    /// Whether the handler may answer `r` to `arg` and be `after` behind
    /// the call. An implementation that says nothing promises nothing.
    open spec fn buy_service_outcome(
        &self,
        arg: ServiceOrder,
        after: Self,
        r: Result<String, RpcError>,
    ) -> bool {
        true
    }

    fn buy_service(&mut self, arg: &ServiceOrder) -> (r: Result<String, RpcError>)
        ensures
            old(self).buy_service_outcome(*arg, *final(self), r),
    ;
}

/// Reads the request of `ServiceVendors.AuthorizeServiceUsage`.
pub fn authorize_service_usage_request(arg: &[u8]) -> (r: Result<ServiceUsage, RpcError>)
    ensures
        match parse_record(Schema::ServiceUsage, arg@, 0) {
            Ok((parsed, _)) => r matches Ok(val) && val.values() == parsed,
            Err(e) => r == Err::<ServiceUsage, RpcError>(
                RpcError::Deserialization { struct_name: "ServiceUsage", source: e },
            ),
        },
{
    let mut d = Decoder::new(arg);
    match decode_service_usage(&mut d) {
        Ok(val) => Ok(val),
        Err(e) => Err(RpcError::Deserialization { struct_name: "ServiceUsage", source: e }),
    }
}

/// Whether `r` is the answer of `ServiceVendors.AuthorizeServiceUsage` to
/// what the handler gave: the handler's reply under the operation's name,
/// or the handler's failure as it is.
pub open spec fn authorize_service_usage_answered(
    outcome: Result<String, RpcError>,
    r: Result<Message, RpcError>,
) -> bool {
    match outcome {
        Ok(reply) => r matches Ok(m)
            && m.method@ == "ServiceVendors.AuthorizeServiceUsage"@
            && m.arg@
            == text_bytes(reply@),
        Err(e) => r == Err::<Message, RpcError>(e),
    }
}

/// Writes the answer of `ServiceVendors.AuthorizeServiceUsage`.
pub fn authorize_service_usage_answer(
    outcome: Result<String, RpcError>,
) -> (r: Result<Message, RpcError>)
    ensures
        authorize_service_usage_answered(outcome, r),
{
    let reply = outcome?;
    let mut e = Encoder::new();
    if e.text(reply.as_str()).is_err() {
        return Err(RpcError::Serialization { struct_name: "String" });
    }
    Ok(answer("ServiceVendors.AuthorizeServiceUsage", e))
}

/// Whether `m` is the call of `ServiceVendors.AuthorizeServiceUsage` with
/// `arg`: the operation's name and the bytes of the argument.
pub open spec fn authorize_service_usage_called(arg: ServiceUsage, m: Message) -> bool {
    m.method@ == "ServiceVendors.AuthorizeServiceUsage"@
        && m.arg@ == record_bytes(Schema::ServiceUsage, arg.values(), Layout::Mapping)
}

/// Writes the call of `ServiceVendors.AuthorizeServiceUsage`.
pub fn authorize_service_usage_call(arg: &ServiceUsage) -> (r: Result<Message, RpcError>)
    ensures
        r matches Ok(m) && authorize_service_usage_called(*arg, m),
{
    let mut e = Encoder::new();
    if encode_service_usage(&mut e, arg).is_err() {
        return Err(RpcError::Serialization { struct_name: "ServiceUsage" });
    }
    Ok(answer("ServiceVendors.AuthorizeServiceUsage", e))
}

/// Whether `r` is what a call of `ServiceVendors.AuthorizeServiceUsage`
/// gives for what the transport brought back: the reply that the bytes
/// hold, the failure to read them, or the transport's failure as it is.
pub open spec fn authorize_service_usage_result_of(
    outcome: Result<Vec<u8>, RpcError>,
    r: Result<String, RpcError>,
) -> bool {
    match outcome {
        Ok(bytes) => match parse_text(bytes@, 0) {
            Ok((parsed, _)) => r matches Ok(val) && val@ == parsed,
            Err(e) => r == Err::<String, RpcError>(
                RpcError::Deserialization { struct_name: "String", source: e },
            ),
        },
        Err(e) => r == Err::<String, RpcError>(e),
    }
}

/// Reads what came back from a call of `ServiceVendors.AuthorizeServiceUsage`.
pub fn authorize_service_usage_result(
    outcome: Result<Vec<u8>, RpcError>,
) -> (r: Result<String, RpcError>)
    ensures
        authorize_service_usage_result_of(outcome, r),
{
    let bytes = outcome?;
    let mut d = Decoder::new(bytes.as_slice());
    match d.text() {
        Ok(val) => Ok(val),
        Err(e) => Err(RpcError::Deserialization { struct_name: "String", source: e }),
    }
}

/// Reads the request of `ServiceVendors.BuyService`.
pub fn buy_service_request(arg: &[u8]) -> (r: Result<ServiceOrder, RpcError>)
    ensures
        match parse_record(Schema::ServiceOrder, arg@, 0) {
            Ok((parsed, _)) => r matches Ok(val) && val.values() == parsed,
            Err(e) => r == Err::<ServiceOrder, RpcError>(
                RpcError::Deserialization { struct_name: "ServiceOrder", source: e },
            ),
        },
{
    let mut d = Decoder::new(arg);
    match decode_service_order(&mut d) {
        Ok(val) => Ok(val),
        Err(e) => Err(RpcError::Deserialization { struct_name: "ServiceOrder", source: e }),
    }
}

/// Whether `r` is the answer of `ServiceVendors.BuyService` to what the
/// handler gave: the handler's reply under the operation's name, or the
/// handler's failure as it is.
pub open spec fn buy_service_answered(
    outcome: Result<String, RpcError>,
    r: Result<Message, RpcError>,
) -> bool {
    match outcome {
        Ok(reply) => r matches Ok(m) && m.method@ == "ServiceVendors.BuyService"@ && m.arg@
            == text_bytes(reply@),
        Err(e) => r == Err::<Message, RpcError>(e),
    }
}

/// Writes the answer of `ServiceVendors.BuyService`.
pub fn buy_service_answer(outcome: Result<String, RpcError>) -> (r: Result<Message, RpcError>)
    ensures
        buy_service_answered(outcome, r),
{
    let reply = outcome?;
    let mut e = Encoder::new();
    if e.text(reply.as_str()).is_err() {
        return Err(RpcError::Serialization { struct_name: "String" });
    }
    Ok(answer("ServiceVendors.BuyService", e))
}

/// Whether `m` is the call of `ServiceVendors.BuyService` with `arg`: the
/// operation's name and the bytes of the argument.
pub open spec fn buy_service_called(arg: ServiceOrder, m: Message) -> bool {
    m.method@ == "ServiceVendors.BuyService"@
        && m.arg@ == record_bytes(Schema::ServiceOrder, arg.values(), Layout::Mapping)
}

/// Writes the call of `ServiceVendors.BuyService`.
pub fn buy_service_call(arg: &ServiceOrder) -> (r: Result<Message, RpcError>)
    ensures
        r matches Ok(m) && buy_service_called(*arg, m),
{
    let mut e = Encoder::new();
    if encode_service_order(&mut e, arg).is_err() {
        return Err(RpcError::Serialization { struct_name: "ServiceOrder" });
    }
    Ok(answer("ServiceVendors.BuyService", e))
}

/// Whether `r` is what a call of `ServiceVendors.BuyService` gives for what the
/// transport brought back: the reply that the bytes hold, the failure
/// to read them, or the transport's failure as it is.
pub open spec fn buy_service_result_of(
    outcome: Result<Vec<u8>, RpcError>,
    r: Result<String, RpcError>,
) -> bool {
    match outcome {
        Ok(bytes) => match parse_text(bytes@, 0) {
            Ok((parsed, _)) => r matches Ok(val) && val@ == parsed,
            Err(e) => r == Err::<String, RpcError>(
                RpcError::Deserialization { struct_name: "String", source: e },
            ),
        },
        Err(e) => r == Err::<String, RpcError>(e),
    }
}

/// Reads what came back from a call of `ServiceVendors.BuyService`.
pub fn buy_service_result(outcome: Result<Vec<u8>, RpcError>) -> (r: Result<String, RpcError>)
    ensures
        buy_service_result_of(outcome, r),
{
    let bytes = outcome?;
    let mut d = Decoder::new(bytes.as_slice());
    match d.text() {
        Ok(val) => Ok(val),
        Err(e) => Err(RpcError::Deserialization { struct_name: "String", source: e }),
    }
}

/// Whether `r` is what a receiver gives for a call of
/// `ServiceVendors.AuthorizeServiceUsage` with the payload `arg`, where the
/// handler is `before` at the call and `after` behind it: the handler was
/// given the request that the payload holds, and `r` is the answer to what
/// the handler gave. Where the payload holds no request, the handler was
/// not called.
pub open spec fn authorize_service_usage_served<H: ServiceVendors>(
    before: H,
    arg: Seq<u8>,
    after: H,
    r: Result<Message, RpcError>,
) -> bool {
    match parse_record(Schema::ServiceUsage, arg, 0) {
        Ok((parsed, _)) => exists|value: ServiceUsage, outcome: Result<String, RpcError>|
            value.values() == parsed
                && #[trigger] before.authorize_service_usage_outcome(value, after, outcome)
                && authorize_service_usage_answered(outcome, r),
        Err(e) => after == before && r == Err::<Message, RpcError>(
            RpcError::Deserialization { struct_name: "ServiceUsage", source: e },
        ),
    }
}

/// Whether `r` is what a receiver gives for a call of
/// `ServiceVendors.BuyService` with the payload `arg`, where the handler is
/// `before` at the call and `after` behind it: the handler was given the
/// request that the payload holds, and `r` is the answer to what the
/// handler gave. Where the payload holds no request, the handler was not
/// called.
pub open spec fn buy_service_served<H: ServiceVendors>(
    before: H,
    arg: Seq<u8>,
    after: H,
    r: Result<Message, RpcError>,
) -> bool {
    match parse_record(Schema::ServiceOrder, arg, 0) {
        Ok((parsed, _)) => exists|value: ServiceOrder, outcome: Result<String, RpcError>|
            value.values() == parsed && #[trigger] before.buy_service_outcome(value, after, outcome)
                && buy_service_answered(outcome, r),
        Err(e) => after == before && r == Err::<Message, RpcError>(
            RpcError::Deserialization { struct_name: "ServiceOrder", source: e },
        ),
    }
}

/// Receives the messages of the `ServiceVendors` service.
pub trait ServiceVendorsReceiver: ServiceVendors {
    /// Routes `message` to the operation that it names. Where the service
    /// has no such operation, or the payload is not a request of that
    /// operation, the handler is not called.
    fn dispatch(&mut self, message: &Message) -> (r: Result<Message, RpcError>)
        ensures
            match ServiceVendorsOperation::named(message.method@) {
                None => *final(self) == *old(self) && (r matches Err(
                    RpcError::MethodNotHandled { service, method },
                ) && service == "ServiceVendors" && method@ == message.method@),
                Some(ServiceVendorsOperation::AuthorizeServiceUsage) => authorize_service_usage_served(
                    *old(self),
                    message.arg@,
                    *final(self),
                    r,
                ),
                Some(ServiceVendorsOperation::BuyService) => buy_service_served(
                    *old(self),
                    message.arg@,
                    *final(self),
                    r,
                ),
            },
    {
        match ServiceVendorsOperation::from_name(message.method.as_str()) {
            Some(ServiceVendorsOperation::AuthorizeServiceUsage) => {
                let value = authorize_service_usage_request(message.arg.as_slice())?;
                let outcome = self.authorize_service_usage(&value);
                let r = authorize_service_usage_answer(outcome);
                proof {
                    assert(old(self).authorize_service_usage_outcome(value, *self, outcome));
                }
                r
            },
            Some(ServiceVendorsOperation::BuyService) => {
                let value = buy_service_request(message.arg.as_slice())?;
                let outcome = self.buy_service(&value);
                let r = buy_service_answer(outcome);
                proof {
                    assert(old(self).buy_service_outcome(value, *self, outcome));
                }
                r
            },
            None => Err(method_not_handled("ServiceVendors", message.method.as_str())),
        }
    }
}

impl<T: ServiceVendors> ServiceVendorsReceiver for T {

}

/// Calls a vendor service over a transport.
pub struct ServiceVendorsSender<T: Transport> {
    transport: T,
    timeout_ms: Option<u64>,
}

impl<T: Transport> ServiceVendorsSender<T> {
    /// How long the sender lets the transport wait for an answer, in
    /// milliseconds. Without a limit the transport decides.
    pub closed spec fn timeout(&self) -> Option<u64> {
        self.timeout_ms
    }

    /// The transport that carries the calls.
    pub closed spec fn transport(&self) -> T {
        self.transport
    }

    /// A sender that calls through `transport`.
    pub fn via(transport: T) -> (s: ServiceVendorsSender<T>)
        ensures
            s.transport() == transport,
            s.timeout() is None,
    {
        ServiceVendorsSender { transport, timeout_ms: None }
    }

    /// Limits the wait for each answer to `interval_ms` milliseconds.
    pub fn set_timeout(&mut self, interval_ms: u64)
        ensures
            final(self).transport() == old(self).transport(),
            final(self).timeout() == Some(interval_ms),
    {
        self.timeout_ms = Some(interval_ms);
    }
}

/// Whether `r` is what a sender gives for
/// `ServiceVendors.AuthorizeServiceUsage` with `arg`, where the sender is
/// `before` at the call and `after` behind it: the transport was handed the
/// call once, with the sender's limit, and `r` is what the transport
/// brought back, read as the operation's reply. The limit stays as it is.
pub open spec fn authorize_service_usage_sent<T: Transport>(
    before: ServiceVendorsSender<T>,
    arg: ServiceUsage,
    after: ServiceVendorsSender<T>,
    r: Result<String, RpcError>,
) -> bool {
    &&& after.timeout() == before.timeout()
    &&& exists|message: Message, outcome: Result<Vec<u8>, RpcError>|
        authorize_service_usage_called(arg, message) && #[trigger] before.transport().carried(
            message,
            before.timeout(),
            after.transport(),
            outcome,
        ) && authorize_service_usage_result_of(outcome, r)
}

/// Whether `r` is what a sender gives for `ServiceVendors.BuyService` with
/// `arg`, where the sender is `before` at the call and `after` behind it:
/// the transport was handed the call once, with the sender's limit, and `r`
/// is what the transport brought back, read as the operation's reply. The
/// limit stays as it is.
pub open spec fn buy_service_sent<T: Transport>(
    before: ServiceVendorsSender<T>,
    arg: ServiceOrder,
    after: ServiceVendorsSender<T>,
    r: Result<String, RpcError>,
) -> bool {
    &&& after.timeout() == before.timeout()
    &&& exists|message: Message, outcome: Result<Vec<u8>, RpcError>|
        buy_service_called(arg, message) && #[trigger] before.transport().carried(
            message,
            before.timeout(),
            after.transport(),
            outcome,
        ) && buy_service_result_of(outcome, r)
}

impl<T: Transport> ServiceVendors for ServiceVendorsSender<T> {
    /// What a call through the transport gives.
    open spec fn authorize_service_usage_outcome(
        &self,
        arg: ServiceUsage,
        after: Self,
        r: Result<String, RpcError>,
    ) -> bool {
        authorize_service_usage_sent(*self, arg, after, r)
    }

    /// Makes one call of `ServiceVendors.AuthorizeServiceUsage`: one
    /// message out, one answer back.
    fn authorize_service_usage(&mut self, arg: &ServiceUsage) -> (r: Result<String, RpcError>)
        ensures
            authorize_service_usage_sent(*old(self), *arg, *final(self), r),
    {
        let message = authorize_service_usage_call(arg)?;
        let ghost sent = message;
        let outcome = self.transport.send(message, self.timeout_ms);
        let ghost brought = outcome;
        let r = authorize_service_usage_result(outcome);
        proof {
            assert(old(self).transport().carried(
                sent,
                old(self).timeout(),
                self.transport(),
                brought,
            ));
        }
        r
    }

    /// What a call through the transport gives.
    open spec fn buy_service_outcome(
        &self,
        arg: ServiceOrder,
        after: Self,
        r: Result<String, RpcError>,
    ) -> bool {
        buy_service_sent(*self, arg, after, r)
    }

    /// Makes one call of `ServiceVendors.BuyService`: one message out, one
    /// answer back.
    fn buy_service(&mut self, arg: &ServiceOrder) -> (r: Result<String, RpcError>)
        ensures
            buy_service_sent(*old(self), *arg, *final(self), r),
    {
        let message = buy_service_call(arg)?;
        let ghost sent = message;
        let outcome = self.transport.send(message, self.timeout_ms);
        let ghost brought = outcome;
        let r = buy_service_result(outcome);
        proof {
            assert(old(self).transport().carried(
                sent,
                old(self).timeout(),
                self.transport(),
                brought,
            ));
        }
        r
    }
}


/// A transport to a handler of the `ServiceVendors` service in the same
/// process. It hands each call to the handler's receiver and brings the
/// bytes of the answer back. No call takes time, so the limit on the
/// wait plays no part.
pub struct ServiceVendorsLocal<H: ServiceVendors> {
    handler: H,
}

impl<H: ServiceVendors> ServiceVendorsLocal<H> {
    /// The handler that serves the calls.
    pub closed spec fn handler(&self) -> H {
        self.handler
    }

    /// A transport to `handler`.
    pub fn to(handler: H) -> (t: ServiceVendorsLocal<H>)
        ensures
            t.handler() == handler,
    {
        ServiceVendorsLocal { handler }
    }

    /// Hands the handler out.
    pub fn into_handler(self) -> (handler: H)
        ensures
            handler == self.handler(),
    {
        self.handler
    }
}

impl<H: ServiceVendors> Transport for ServiceVendorsLocal<H> {
    /// What the receiver gives for the call comes back: the bytes of its
    /// answer, or its failure. A call of a method that the service does
    /// not have fails, and the handler is not called.
    open spec fn carried(
        &self,
        message: Message,
        timeout_ms: Option<u64>,
        after: Self,
        r: Result<Vec<u8>, RpcError>,
    ) -> bool {
        match ServiceVendorsOperation::wired(message.method@) {
            None => after == *self && (r matches Err(
                RpcError::MethodNotHandled { service, method },
            ) && service == "ServiceVendors" && method@ == message.method@),
            Some(ServiceVendorsOperation::AuthorizeServiceUsage) => exists|answer: Result<Message, RpcError>|
                #[trigger] authorize_service_usage_served(self.handler(), message.arg@, after.handler(), answer)
                    && r == brought_back(answer),
            Some(ServiceVendorsOperation::BuyService) => exists|answer: Result<Message, RpcError>|
                #[trigger] buy_service_served(self.handler(), message.arg@, after.handler(), answer)
                    && r == brought_back(answer),
        }
    }

    fn send(
        &mut self,
        message: Message,
        timeout_ms: Option<u64>,
    ) -> (r: Result<Vec<u8>, RpcError>) {
        match ServiceVendorsOperation::from_wire_name(message.method.as_str()) {
            Some(operation) => {
                let bare = Message { method: operation.bare().to_owned(), arg: message.arg };
                proof {
                    operation.lemma_named();
                }
                let answer = self.handler.dispatch(&bare);
                let ghost given = answer;
                let r = match answer {
                    Ok(m) => Ok(m.arg),
                    Err(e) => Err(e),
                };
                proof {
                    assert(r == brought_back(given));
                    assert(bare.arg@ == message.arg@);
                    match operation {
                        ServiceVendorsOperation::AuthorizeServiceUsage => {
                            assert(authorize_service_usage_served(
                                old(self).handler(),
                                message.arg@,
                                self.handler(),
                                given,
                            ));
                        },
                        ServiceVendorsOperation::BuyService => {
                            assert(buy_service_served(
                                old(self).handler(),
                                message.arg@,
                                self.handler(),
                                given,
                            ));
                        },
                    }
                }
                r
            },
            None => Err(method_not_handled("ServiceVendors", message.method.as_str())),
        }
    }
}

} // verus!
