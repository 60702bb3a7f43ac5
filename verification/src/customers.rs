//! The `Customers` service: its operations, the trait of its handlers, the
//! receiver that routes messages to a handler, and the sender that calls
//! a remote handler.

use vstd::prelude::*;
use crate::cbor::same_text;
use crate::codec::create_customer_reply::{
    decode_create_customer_reply, encode_create_customer_reply,
};
use crate::codec::customer::{decode_customer, encode_customer};
use crate::codec::find_customer_reply::{decode_find_customer_reply, encode_find_customer_reply};
use crate::coder::{Decoder, Encoder};
use crate::error::RpcError;
use crate::grammar::{parse_record, parse_text, record_bytes};
use crate::message::{answer, brought_back, method_not_handled, Message, Transport};
use crate::model::{CreateCustomerReply, Customer, FindCustomerReply};
use crate::schema::{Layout, Schema};
use crate::wire::text_bytes;

verus! {

/// The operations of the `Customers` service.
#[derive(Clone, Copy, Debug, PartialEq, Eq, Structural)]
pub enum CustomersOperation {
    CreateCustomer,
    FindCustomer,
}

impl CustomersOperation {
    /// The operation that a receiver knows under `method`.
    pub open spec fn named(method: Seq<char>) -> Option<CustomersOperation> {
        if method == "CreateCustomer"@ {
            Some(CustomersOperation::CreateCustomer)
        } else if method == "FindCustomer"@ {
            Some(CustomersOperation::FindCustomer)
        } else {
            None
        }
    }

    /// The name under which the operation travels between services.
    pub open spec fn wire_name(self) -> &'static str {
        match self {
            CustomersOperation::CreateCustomer => "Customers.CreateCustomer",
            CustomersOperation::FindCustomer => "Customers.FindCustomer",
        }
    }

    /// Looks an operation up by the name that a receiver knows it under.
    pub fn from_name(method: &str) -> (r: Option<CustomersOperation>)
        ensures
            r == CustomersOperation::named(method@),
    {
        if same_text(method, "CreateCustomer") {
            Some(CustomersOperation::CreateCustomer)
        } else if same_text(method, "FindCustomer") {
            Some(CustomersOperation::FindCustomer)
        } else {
            None
        }
    }

    /// The name under which the operation travels between services.
    pub fn name(self) -> (r: &'static str)
        ensures
            r == self.wire_name(),
    {
        match self {
            CustomersOperation::CreateCustomer => "Customers.CreateCustomer",
            CustomersOperation::FindCustomer => "Customers.FindCustomer",
        }
    }

    /// The name under which a receiver knows the operation.
    pub open spec fn bare_name(self) -> &'static str {
        match self {
            CustomersOperation::CreateCustomer => "CreateCustomer",
            CustomersOperation::FindCustomer => "FindCustomer",
        }
    }

    /// The name under which a receiver knows the operation.
    pub fn bare(self) -> (r: &'static str)
        ensures
            r == self.bare_name(),
    {
        match self {
            CustomersOperation::CreateCustomer => "CreateCustomer",
            CustomersOperation::FindCustomer => "FindCustomer",
        }
    }

    /// The operation that travels under `method`.
    pub open spec fn wired(method: Seq<char>) -> Option<CustomersOperation> {
        if method == "Customers.CreateCustomer"@ {
            Some(CustomersOperation::CreateCustomer)
        } else if method == "Customers.FindCustomer"@ {
            Some(CustomersOperation::FindCustomer)
        } else {
            None
        }
    }

    /// Looks an operation up by the name under which it travels.
    pub fn from_wire_name(method: &str) -> (r: Option<CustomersOperation>)
        ensures
            r == CustomersOperation::wired(method@),
    {
        if same_text(method, "Customers.CreateCustomer") {
            Some(CustomersOperation::CreateCustomer)
        } else if same_text(method, "Customers.FindCustomer") {
            Some(CustomersOperation::FindCustomer)
        } else {
            None
        }
    }

    /// A receiver finds each operation under its name.
    pub proof fn lemma_named(self)
        ensures
            CustomersOperation::named(self.bare_name()@) == Some(self),
    {
        reveal_strlit("CreateCustomer");
        reveal_strlit("FindCustomer");
        assert("CreateCustomer"@.len() == 14);
        assert("FindCustomer"@.len() == 12);
    }
}

/// What an implementation of the `Customers` service does.
///
/// For each operation an implementation says what its callers may rely
/// on: which answers it may give to a request, and what it may be like
/// behind the call.
pub trait Customers: Sized {
    /// Whether the handler may answer `r` to `arg` and be `after` behind
    /// the call. An implementation that says nothing promises nothing.
    open spec fn create_customer_outcome(
        &self,
        arg: Customer,
        after: Self,
        r: Result<CreateCustomerReply, RpcError>,
    ) -> bool {
        true
    }

    fn create_customer(&mut self, arg: &Customer) -> (r: Result<CreateCustomerReply, RpcError>)
        ensures
            old(self).create_customer_outcome(*arg, *final(self), r),
    ;

    /// Whether the handler may answer `r` to `arg` and be `after` behind
    /// the call. An implementation that says nothing promises nothing.
    open spec fn find_customer_outcome(
        &self,
        arg: Seq<char>,
        after: Self,
        r: Result<FindCustomerReply, RpcError>,
    ) -> bool {
        true
    }

    fn find_customer(&mut self, arg: &str) -> (r: Result<FindCustomerReply, RpcError>)
        ensures
            old(self).find_customer_outcome(arg@, *final(self), r),
    ;
}

/// Reads the request of `Customers.CreateCustomer`.
pub fn create_customer_request(arg: &[u8]) -> (r: Result<Customer, RpcError>)
    ensures
        match parse_record(Schema::Customer, arg@, 0) {
            Ok((parsed, _)) => r matches Ok(val) && val.values() == parsed,
            Err(e) => r == Err::<Customer, RpcError>(
                RpcError::Deserialization { struct_name: "Customer", source: e },
            ),
        },
{
    let mut d = Decoder::new(arg);
    match decode_customer(&mut d) {
        Ok(val) => Ok(val),
        Err(e) => Err(RpcError::Deserialization { struct_name: "Customer", source: e }),
    }
}

/// Whether `r` is the answer of `Customers.CreateCustomer` to what the
/// handler gave: the handler's reply under the operation's name, or the
/// handler's failure as it is.
pub open spec fn create_customer_answered(
    outcome: Result<CreateCustomerReply, RpcError>,
    r: Result<Message, RpcError>,
) -> bool {
    match outcome {
        Ok(reply) => r matches Ok(m) && m.method@ == "Customers.CreateCustomer"@ && m.arg@
            == record_bytes(Schema::CreateCustomerReply, reply.values(), Layout::Mapping),
        Err(e) => r == Err::<Message, RpcError>(e),
    }
}

/// Writes the answer of `Customers.CreateCustomer`.
pub fn create_customer_answer(
    outcome: Result<CreateCustomerReply, RpcError>,
) -> (r: Result<Message, RpcError>)
    ensures
        create_customer_answered(outcome, r),
{
    let reply = outcome?;
    let mut e = Encoder::new();
    if encode_create_customer_reply(&mut e, &reply).is_err() {
        return Err(RpcError::Serialization { struct_name: "CreateCustomerReply" });
    }
    Ok(answer("Customers.CreateCustomer", e))
}

/// Whether `m` is the call of `Customers.CreateCustomer` with `arg`: the
/// operation's name and the bytes of the argument.
pub open spec fn create_customer_called(arg: Customer, m: Message) -> bool {
    m.method@ == "Customers.CreateCustomer"@
        && m.arg@ == record_bytes(Schema::Customer, arg.values(), Layout::Mapping)
}

/// Writes the call of `Customers.CreateCustomer`.
pub fn create_customer_call(arg: &Customer) -> (r: Result<Message, RpcError>)
    ensures
        r matches Ok(m) && create_customer_called(*arg, m),
{
    let mut e = Encoder::new();
    if encode_customer(&mut e, arg).is_err() {
        return Err(RpcError::Serialization { struct_name: "Customer" });
    }
    Ok(answer("Customers.CreateCustomer", e))
}

/// Whether `r` is what a call of `Customers.CreateCustomer` gives for what the
/// transport brought back: the reply that the bytes hold, the failure
/// to read them, or the transport's failure as it is.
pub open spec fn create_customer_result_of(
    outcome: Result<Vec<u8>, RpcError>,
    r: Result<CreateCustomerReply, RpcError>,
) -> bool {
    match outcome {
        Ok(bytes) => match parse_record(Schema::CreateCustomerReply, bytes@, 0) {
            Ok((parsed, _)) => r matches Ok(val) && val.values() == parsed,
            Err(e) => r == Err::<CreateCustomerReply, RpcError>(
                RpcError::Deserialization { struct_name: "CreateCustomerReply", source: e },
            ),
        },
        Err(e) => r == Err::<CreateCustomerReply, RpcError>(e),
    }
}

/// Reads what came back from a call of `Customers.CreateCustomer`.
pub fn create_customer_result(
    outcome: Result<Vec<u8>, RpcError>,
) -> (r: Result<CreateCustomerReply, RpcError>)
    ensures
        create_customer_result_of(outcome, r),
{
    let bytes = outcome?;
    let mut d = Decoder::new(bytes.as_slice());
    match decode_create_customer_reply(&mut d) {
        Ok(val) => Ok(val),
        Err(e) => Err(RpcError::Deserialization { struct_name: "CreateCustomerReply", source: e }),
    }
}

/// Reads the request of `Customers.FindCustomer`.
pub fn find_customer_request(arg: &[u8]) -> (r: Result<String, RpcError>)
    ensures
        match parse_text(arg@, 0) {
            Ok((parsed, _)) => r matches Ok(val) && val@ == parsed,
            Err(e) => r == Err::<String, RpcError>(
                RpcError::Deserialization { struct_name: "String", source: e },
            ),
        },
{
    let mut d = Decoder::new(arg);
    match d.text() {
        Ok(val) => Ok(val),
        Err(e) => Err(RpcError::Deserialization { struct_name: "String", source: e }),
    }
}

/// Whether `r` is the answer of `Customers.FindCustomer` to what the
/// handler gave: the handler's reply under the operation's name, or the
/// handler's failure as it is.
pub open spec fn find_customer_answered(
    outcome: Result<FindCustomerReply, RpcError>,
    r: Result<Message, RpcError>,
) -> bool {
    match outcome {
        Ok(reply) => r matches Ok(m) && m.method@ == "Customers.FindCustomer"@ && m.arg@
            == record_bytes(Schema::FindCustomerReply, reply.values(), Layout::Mapping),
        Err(e) => r == Err::<Message, RpcError>(e),
    }
}

/// Writes the answer of `Customers.FindCustomer`.
pub fn find_customer_answer(
    outcome: Result<FindCustomerReply, RpcError>,
) -> (r: Result<Message, RpcError>)
    ensures
        find_customer_answered(outcome, r),
{
    let reply = outcome?;
    let mut e = Encoder::new();
    if encode_find_customer_reply(&mut e, &reply).is_err() {
        return Err(RpcError::Serialization { struct_name: "FindCustomerReply" });
    }
    Ok(answer("Customers.FindCustomer", e))
}

/// Whether `m` is the call of `Customers.FindCustomer` with `arg`: the
/// operation's name and the bytes of the argument.
pub open spec fn find_customer_called(arg: Seq<char>, m: Message) -> bool {
    m.method@ == "Customers.FindCustomer"@ && m.arg@ == text_bytes(arg)
}

/// Writes the call of `Customers.FindCustomer`.
pub fn find_customer_call(arg: &str) -> (r: Result<Message, RpcError>)
    ensures
        r matches Ok(m) && find_customer_called(arg@, m),
{
    let mut e = Encoder::new();
    if e.text(arg).is_err() {
        return Err(RpcError::Serialization { struct_name: "String" });
    }
    Ok(answer("Customers.FindCustomer", e))
}

/// Whether `r` is what a call of `Customers.FindCustomer` gives for what the
/// transport brought back: the reply that the bytes hold, the failure
/// to read them, or the transport's failure as it is.
pub open spec fn find_customer_result_of(
    outcome: Result<Vec<u8>, RpcError>,
    r: Result<FindCustomerReply, RpcError>,
) -> bool {
    match outcome {
        Ok(bytes) => match parse_record(Schema::FindCustomerReply, bytes@, 0) {
            Ok((parsed, _)) => r matches Ok(val) && val.values() == parsed,
            Err(e) => r == Err::<FindCustomerReply, RpcError>(
                RpcError::Deserialization { struct_name: "FindCustomerReply", source: e },
            ),
        },
        Err(e) => r == Err::<FindCustomerReply, RpcError>(e),
    }
}

/// Reads what came back from a call of `Customers.FindCustomer`.
pub fn find_customer_result(
    outcome: Result<Vec<u8>, RpcError>,
) -> (r: Result<FindCustomerReply, RpcError>)
    ensures
        find_customer_result_of(outcome, r),
{
    let bytes = outcome?;
    let mut d = Decoder::new(bytes.as_slice());
    match decode_find_customer_reply(&mut d) {
        Ok(val) => Ok(val),
        Err(e) => Err(RpcError::Deserialization { struct_name: "FindCustomerReply", source: e }),
    }
}

/// Whether `r` is what a receiver gives for a call of
/// `Customers.CreateCustomer` with the payload `arg`, where the handler is
/// `before` at the call and `after` behind it: the handler was given the
/// request that the payload holds, and `r` is the answer to what the
/// handler gave. Where the payload holds no request, the handler was not
/// called.
pub open spec fn create_customer_served<H: Customers>(
    before: H,
    arg: Seq<u8>,
    after: H,
    r: Result<Message, RpcError>,
) -> bool {
    match parse_record(Schema::Customer, arg, 0) {
        Ok((parsed, _)) => exists|value: Customer, outcome: Result<CreateCustomerReply, RpcError>|
            value.values() == parsed
                && #[trigger] before.create_customer_outcome(value, after, outcome)
                && create_customer_answered(outcome, r),
        Err(e) => after == before && r == Err::<Message, RpcError>(
            RpcError::Deserialization { struct_name: "Customer", source: e },
        ),
    }
}

/// Whether `r` is what a receiver gives for a call of
/// `Customers.FindCustomer` with the payload `arg`, where the handler is
/// `before` at the call and `after` behind it: the handler was given the
/// request that the payload holds, and `r` is the answer to what the
/// handler gave. Where the payload holds no request, the handler was not
/// called.
pub open spec fn find_customer_served<H: Customers>(
    before: H,
    arg: Seq<u8>,
    after: H,
    r: Result<Message, RpcError>,
) -> bool {
    match parse_text(arg, 0) {
        Ok((parsed, _)) => exists|outcome: Result<FindCustomerReply, RpcError>|
            #[trigger] before.find_customer_outcome(parsed, after, outcome)
                && find_customer_answered(outcome, r),
        Err(e) => after == before && r == Err::<Message, RpcError>(
            RpcError::Deserialization { struct_name: "String", source: e },
        ),
    }
}

/// Receives the messages of the `Customers` service.
pub trait CustomersReceiver: Customers {
    /// Routes `message` to the operation that it names. Where the service
    /// has no such operation, or the payload is not a request of that
    /// operation, the handler is not called.
    fn dispatch(&mut self, message: &Message) -> (r: Result<Message, RpcError>)
        ensures
            match CustomersOperation::named(message.method@) {
                None => *final(self) == *old(self) && (r matches Err(
                    RpcError::MethodNotHandled { service, method },
                ) && service == "Customers" && method@ == message.method@),
                Some(CustomersOperation::CreateCustomer) => create_customer_served(
                    *old(self),
                    message.arg@,
                    *final(self),
                    r,
                ),
                Some(CustomersOperation::FindCustomer) => find_customer_served(
                    *old(self),
                    message.arg@,
                    *final(self),
                    r,
                ),
            },
    {
        match CustomersOperation::from_name(message.method.as_str()) {
            Some(CustomersOperation::CreateCustomer) => {
                let value = create_customer_request(message.arg.as_slice())?;
                let outcome = self.create_customer(&value);
                let r = create_customer_answer(outcome);
                proof {
                    assert(old(self).create_customer_outcome(value, *self, outcome));
                }
                r
            },
            Some(CustomersOperation::FindCustomer) => {
                let value = find_customer_request(message.arg.as_slice())?;
                let outcome = self.find_customer(value.as_str());
                let r = find_customer_answer(outcome);
                proof {
                    assert(old(self).find_customer_outcome(value@, *self, outcome));
                }
                r
            },
            None => Err(method_not_handled("Customers", message.method.as_str())),
        }
    }
}

impl<T: Customers> CustomersReceiver for T {

}

/// Calls a customer service over a transport.
pub struct CustomersSender<T: Transport> {
    transport: T,
    timeout_ms: Option<u64>,
}

impl<T: Transport> CustomersSender<T> {
    /// How long the sender lets the transport wait for an answer, in
    /// milliseconds. Without a limit the transport decides.
    pub closed spec fn timeout(&self) -> Option<u64> {
        self.timeout_ms
    }

    /// The transport that carries the calls.
    pub closed spec fn transport(&self) -> T {
        self.transport
    }

    /// A sender that calls through `transport`.
    pub fn via(transport: T) -> (s: CustomersSender<T>)
        ensures
            s.transport() == transport,
            s.timeout() is None,
    {
        CustomersSender { transport, timeout_ms: None }
    }

    /// Limits the wait for each answer to `interval_ms` milliseconds.
    pub fn set_timeout(&mut self, interval_ms: u64)
        ensures
            final(self).transport() == old(self).transport(),
            final(self).timeout() == Some(interval_ms),
    {
        self.timeout_ms = Some(interval_ms);
    }
}

/// Whether `r` is what a sender gives for `Customers.CreateCustomer` with
/// `arg`, where the sender is `before` at the call and `after` behind it:
/// the transport was handed the call once, with the sender's limit, and `r`
/// is what the transport brought back, read as the operation's reply. The
/// limit stays as it is.
pub open spec fn create_customer_sent<T: Transport>(
    before: CustomersSender<T>,
    arg: Customer,
    after: CustomersSender<T>,
    r: Result<CreateCustomerReply, RpcError>,
) -> bool {
    &&& after.timeout() == before.timeout()
    &&& exists|message: Message, outcome: Result<Vec<u8>, RpcError>|
        create_customer_called(arg, message) && #[trigger] before.transport().carried(
            message,
            before.timeout(),
            after.transport(),
            outcome,
        ) && create_customer_result_of(outcome, r)
}

/// Whether `r` is what a sender gives for `Customers.FindCustomer` with `arg`,
/// where the sender is `before` at the call and `after` behind it: the
/// transport was handed the call once, with the sender's limit, and `r`
/// is what the transport brought back, read as the operation's reply.
/// The limit stays as it is.
pub open spec fn find_customer_sent<T: Transport>(
    before: CustomersSender<T>,
    arg: Seq<char>,
    after: CustomersSender<T>,
    r: Result<FindCustomerReply, RpcError>,
) -> bool {
    &&& after.timeout() == before.timeout()
    &&& exists|message: Message, outcome: Result<Vec<u8>, RpcError>|
        find_customer_called(arg, message) && #[trigger] before.transport().carried(
            message,
            before.timeout(),
            after.transport(),
            outcome,
        ) && find_customer_result_of(outcome, r)
}

impl<T: Transport> Customers for CustomersSender<T> {
    /// What a call through the transport gives.
    open spec fn create_customer_outcome(
        &self,
        arg: Customer,
        after: Self,
        r: Result<CreateCustomerReply, RpcError>,
    ) -> bool {
        create_customer_sent(*self, arg, after, r)
    }

    /// Makes one call of `Customers.CreateCustomer`: one message out, one
    /// answer back.
    fn create_customer(&mut self, arg: &Customer) -> (r: Result<CreateCustomerReply, RpcError>)
        ensures
            create_customer_sent(*old(self), *arg, *final(self), r),
    {
        let message = create_customer_call(arg)?;
        let ghost sent = message;
        let outcome = self.transport.send(message, self.timeout_ms);
        let ghost brought = outcome;
        let r = create_customer_result(outcome);
        proof {
            assert(old(self).transport().carried(
                sent,
                old(self).timeout(),
                self.transport(),
                brought,
            ));
        }
        r
    }

    /// What a call through the transport gives.
    open spec fn find_customer_outcome(
        &self,
        arg: Seq<char>,
        after: Self,
        r: Result<FindCustomerReply, RpcError>,
    ) -> bool {
        find_customer_sent(*self, arg, after, r)
    }

    /// Makes one call of `Customers.FindCustomer`: one message out, one
    /// answer back.
    fn find_customer(&mut self, arg: &str) -> (r: Result<FindCustomerReply, RpcError>)
        ensures
            find_customer_sent(*old(self), arg@, *final(self), r),
    {
        let message = find_customer_call(arg)?;
        let ghost sent = message;
        let outcome = self.transport.send(message, self.timeout_ms);
        let ghost brought = outcome;
        let r = find_customer_result(outcome);
        proof {
            assert(old(self).transport().carried(
                sent,
                old(self).timeout(),
                self.transport(),
                brought,
            ));
        }
        r
    }
}


/// A transport to a handler of the `Customers` service in the same
/// process. It hands each call to the handler's receiver and brings the
/// bytes of the answer back. No call takes time, so the limit on the
/// wait plays no part.
pub struct CustomersLocal<H: Customers> {
    handler: H,
}

impl<H: Customers> CustomersLocal<H> {
    /// The handler that serves the calls.
    pub closed spec fn handler(&self) -> H {
        self.handler
    }

    /// A transport to `handler`.
    pub fn to(handler: H) -> (t: CustomersLocal<H>)
        ensures
            t.handler() == handler,
    {
        CustomersLocal { handler }
    }

    /// Hands the handler out.
    pub fn into_handler(self) -> (handler: H)
        ensures
            handler == self.handler(),
    {
        self.handler
    }
}

impl<H: Customers> Transport for CustomersLocal<H> {
    /// What the receiver gives for the call comes back: the bytes of its
    /// answer, or its failure. A call of a method that the service does
    /// not have fails, and the handler is not called.
    open spec fn carried(
        &self,
        message: Message,
        timeout_ms: Option<u64>,
        after: Self,
        r: Result<Vec<u8>, RpcError>,
    ) -> bool {
        match CustomersOperation::wired(message.method@) {
            None => after == *self && (r matches Err(
                RpcError::MethodNotHandled { service, method },
            ) && service == "Customers" && method@ == message.method@),
            Some(CustomersOperation::CreateCustomer) => exists|answer: Result<Message, RpcError>|
                #[trigger] create_customer_served(self.handler(), message.arg@, after.handler(), answer)
                    && r == brought_back(answer),
            Some(CustomersOperation::FindCustomer) => exists|answer: Result<Message, RpcError>|
                #[trigger] find_customer_served(self.handler(), message.arg@, after.handler(), answer)
                    && r == brought_back(answer),
        }
    }

    fn send(
        &mut self,
        message: Message,
        timeout_ms: Option<u64>,
    ) -> (r: Result<Vec<u8>, RpcError>) {
        match CustomersOperation::from_wire_name(message.method.as_str()) {
            Some(operation) => {
                let bare = Message { method: operation.bare().to_owned(), arg: message.arg };
                proof {
                    operation.lemma_named();
                }
                let answer = self.handler.dispatch(&bare);
                let ghost given = answer;
                let r = match answer {
                    Ok(m) => Ok(m.arg),
                    Err(e) => Err(e),
                };
                proof {
                    assert(r == brought_back(given));
                    assert(bare.arg@ == message.arg@);
                    match operation {
                        CustomersOperation::CreateCustomer => {
                            assert(create_customer_served(
                                old(self).handler(),
                                message.arg@,
                                self.handler(),
                                given,
                            ));
                        },
                        CustomersOperation::FindCustomer => {
                            assert(find_customer_served(
                                old(self).handler(),
                                message.arg@,
                                self.handler(),
                                given,
                            ));
                        },
                    }
                }
                r
            },
            None => Err(method_not_handled("Customers", message.method.as_str())),
        }
    }
}

} // verus!
