//! The `CustomerGroups` service: its operations, the trait of its handlers, the
//! receiver that routes messages to a handler, and the sender that calls
//! a remote handler.

use vstd::prelude::*;
use crate::cbor::same_text;
use crate::codec::add_customer_reply::{decode_add_customer_reply, encode_add_customer_reply};
use crate::codec::add_customer_request::{decode_add_customer_request, encode_add_customer_request};
use crate::codec::create_customer_group_reply::{
    decode_create_customer_group_reply, encode_create_customer_group_reply,
};
use crate::codec::customer_group::{decode_customer_group, encode_customer_group};
use crate::codec::customer_list::{
    customers_values, decode_customer_list, encode_customer_list,
};
use crate::coder::{Decoder, Encoder};
use crate::error::RpcError;
use crate::grammar::{parse_record, parse_record_list, parse_text, record_bytes, record_list_bytes};
use crate::message::{answer, brought_back, method_not_handled, Message, Transport};
use crate::model::{
    AddCustomerReply, AddCustomerRequest, CreateCustomerGroupReply, Customer, CustomerGroup,
};
use crate::schema::{Layout, Schema};
use crate::wire::text_bytes;

verus! {

/// The operations of the `CustomerGroups` service.
#[derive(Clone, Copy, Debug, PartialEq, Eq, Structural)]
pub enum CustomerGroupsOperation {
    CreateCustomerGroup,
    AddCustomer,
    ListCustomers,
}

impl CustomerGroupsOperation {
    /// The operation that a receiver knows under `method`.
    pub open spec fn named(method: Seq<char>) -> Option<CustomerGroupsOperation> {
        if method == "CreateCustomerGroup"@ {
            Some(CustomerGroupsOperation::CreateCustomerGroup)
        } else if method == "AddCustomer"@ {
            Some(CustomerGroupsOperation::AddCustomer)
        } else if method == "ListCustomers"@ {
            Some(CustomerGroupsOperation::ListCustomers)
        } else {
            None
        }
    }

    /// The name under which the operation travels between services.
    pub open spec fn wire_name(self) -> &'static str {
        match self {
            CustomerGroupsOperation::CreateCustomerGroup => "CustomerGroups.CreateCustomerGroup",
            CustomerGroupsOperation::AddCustomer => "CustomerGroups.AddCustomer",
            CustomerGroupsOperation::ListCustomers => "CustomerGroups.ListCustomers",
        }
    }

    /// Looks an operation up by the name that a receiver knows it under.
    pub fn from_name(method: &str) -> (r: Option<CustomerGroupsOperation>)
        ensures
            r == CustomerGroupsOperation::named(method@),
    {
        if same_text(method, "CreateCustomerGroup") {
            Some(CustomerGroupsOperation::CreateCustomerGroup)
        } else if same_text(method, "AddCustomer") {
            Some(CustomerGroupsOperation::AddCustomer)
        } else if same_text(method, "ListCustomers") {
            Some(CustomerGroupsOperation::ListCustomers)
        } else {
            None
        }
    }

    /// The name under which the operation travels between services.
    pub fn name(self) -> (r: &'static str)
        ensures
            r == self.wire_name(),
    {
        match self {
            CustomerGroupsOperation::CreateCustomerGroup => "CustomerGroups.CreateCustomerGroup",
            CustomerGroupsOperation::AddCustomer => "CustomerGroups.AddCustomer",
            CustomerGroupsOperation::ListCustomers => "CustomerGroups.ListCustomers",
        }
    }

    /// The name under which a receiver knows the operation.
    pub open spec fn bare_name(self) -> &'static str {
        match self {
            CustomerGroupsOperation::CreateCustomerGroup => "CreateCustomerGroup",
            CustomerGroupsOperation::AddCustomer => "AddCustomer",
            CustomerGroupsOperation::ListCustomers => "ListCustomers",
        }
    }

    /// The name under which a receiver knows the operation.
    pub fn bare(self) -> (r: &'static str)
        ensures
            r == self.bare_name(),
    {
        match self {
            CustomerGroupsOperation::CreateCustomerGroup => "CreateCustomerGroup",
            CustomerGroupsOperation::AddCustomer => "AddCustomer",
            CustomerGroupsOperation::ListCustomers => "ListCustomers",
        }
    }

    /// The operation that travels under `method`.
    pub open spec fn wired(method: Seq<char>) -> Option<CustomerGroupsOperation> {
        if method == "CustomerGroups.CreateCustomerGroup"@ {
            Some(CustomerGroupsOperation::CreateCustomerGroup)
        } else if method == "CustomerGroups.AddCustomer"@ {
            Some(CustomerGroupsOperation::AddCustomer)
        } else if method == "CustomerGroups.ListCustomers"@ {
            Some(CustomerGroupsOperation::ListCustomers)
        } else {
            None
        }
    }

    /// Looks an operation up by the name under which it travels.
    pub fn from_wire_name(method: &str) -> (r: Option<CustomerGroupsOperation>)
        ensures
            r == CustomerGroupsOperation::wired(method@),
    {
        if same_text(method, "CustomerGroups.CreateCustomerGroup") {
            Some(CustomerGroupsOperation::CreateCustomerGroup)
        } else if same_text(method, "CustomerGroups.AddCustomer") {
            Some(CustomerGroupsOperation::AddCustomer)
        } else if same_text(method, "CustomerGroups.ListCustomers") {
            Some(CustomerGroupsOperation::ListCustomers)
        } else {
            None
        }
    }

    /// A receiver finds each operation under its name.
    pub proof fn lemma_named(self)
        ensures
            CustomerGroupsOperation::named(self.bare_name()@) == Some(self),
    {
        reveal_strlit("CreateCustomerGroup");
        reveal_strlit("AddCustomer");
        reveal_strlit("ListCustomers");
        assert("CreateCustomerGroup"@.len() == 19);
        assert("AddCustomer"@.len() == 11);
        assert("ListCustomers"@.len() == 13);
    }
}

/// What an implementation of the `CustomerGroups` service does.
///
/// For each operation an implementation says what its callers may rely
/// on: which answers it may give to a request, and what it may be like
/// behind the call.
pub trait CustomerGroups: Sized {
    /// Whether the handler may answer `r` to `arg` and be `after` behind
    /// the call. An implementation that says nothing promises nothing.
    open spec fn create_customer_group_outcome(
        &self,
        arg: CustomerGroup,
        after: Self,
        r: Result<CreateCustomerGroupReply, RpcError>,
    ) -> bool {
        true
    }

    fn create_customer_group(
        &mut self,
        arg: &CustomerGroup,
    ) -> (r: Result<CreateCustomerGroupReply, RpcError>)
        ensures
            old(self).create_customer_group_outcome(*arg, *final(self), r),
    ;

    /// Whether the handler may answer `r` to `arg` and be `after` behind
    /// the call. An implementation that says nothing promises nothing.
    open spec fn add_customer_outcome(
        &self,
        arg: AddCustomerRequest,
        after: Self,
        r: Result<AddCustomerReply, RpcError>,
    ) -> bool {
        true
    }

    fn add_customer(&mut self, arg: &AddCustomerRequest) -> (r: Result<AddCustomerReply, RpcError>)
        ensures
            old(self).add_customer_outcome(*arg, *final(self), r),
    ;

    /// Whether the handler may answer `r` to `arg` and be `after` behind
    /// the call. An implementation that says nothing promises nothing.
    open spec fn list_customers_outcome(
        &self,
        arg: Seq<char>,
        after: Self,
        r: Result<Vec<Customer>, RpcError>,
    ) -> bool {
        true
    }

    fn list_customers(&mut self, arg: &str) -> (r: Result<Vec<Customer>, RpcError>)
        ensures
            old(self).list_customers_outcome(arg@, *final(self), r),
    ;
}

/// Reads the request of `CustomerGroups.CreateCustomerGroup`.
pub fn create_customer_group_request(arg: &[u8]) -> (r: Result<CustomerGroup, RpcError>)
    ensures
        match parse_record(Schema::CustomerGroup, arg@, 0) {
            Ok((parsed, _)) => r matches Ok(val) && val.values() == parsed,
            Err(e) => r == Err::<CustomerGroup, RpcError>(
                RpcError::Deserialization { struct_name: "CustomerGroup", source: e },
            ),
        },
{
    let mut d = Decoder::new(arg);
    match decode_customer_group(&mut d) {
        Ok(val) => Ok(val),
        Err(e) => Err(RpcError::Deserialization { struct_name: "CustomerGroup", source: e }),
    }
}

/// Whether `r` is the answer of `CustomerGroups.CreateCustomerGroup` to
/// what the handler gave: the handler's reply under the operation's name,
/// or the handler's failure as it is.
pub open spec fn create_customer_group_answered(
    outcome: Result<CreateCustomerGroupReply, RpcError>,
    r: Result<Message, RpcError>,
) -> bool {
    match outcome {
        Ok(reply) => r matches Ok(m) && m.method@ == "CustomerGroups.CreateCustomerGroup"@ && m.arg@
            == record_bytes(Schema::CreateCustomerGroupReply, reply.values(), Layout::Mapping),
        Err(e) => r == Err::<Message, RpcError>(e),
    }
}

/// Writes the answer of `CustomerGroups.CreateCustomerGroup`.
pub fn create_customer_group_answer(
    outcome: Result<CreateCustomerGroupReply, RpcError>,
) -> (r: Result<Message, RpcError>)
    ensures
        create_customer_group_answered(outcome, r),
{
    let reply = outcome?;
    let mut e = Encoder::new();
    if encode_create_customer_group_reply(&mut e, &reply).is_err() {
        return Err(RpcError::Serialization { struct_name: "CreateCustomerGroupReply" });
    }
    Ok(answer("CustomerGroups.CreateCustomerGroup", e))
}

/// Whether `m` is the call of `CustomerGroups.CreateCustomerGroup` with
/// `arg`: the operation's name and the bytes of the argument.
pub open spec fn create_customer_group_called(arg: CustomerGroup, m: Message) -> bool {
    m.method@ == "CustomerGroups.CreateCustomerGroup"@
        && m.arg@ == record_bytes(Schema::CustomerGroup, arg.values(), Layout::Mapping)
}

/// Writes the call of `CustomerGroups.CreateCustomerGroup`.
pub fn create_customer_group_call(arg: &CustomerGroup) -> (r: Result<Message, RpcError>)
    ensures
        r matches Ok(m) && create_customer_group_called(*arg, m),
{
    let mut e = Encoder::new();
    if encode_customer_group(&mut e, arg).is_err() {
        return Err(RpcError::Serialization { struct_name: "CustomerGroup" });
    }
    Ok(answer("CustomerGroups.CreateCustomerGroup", e))
}

/// Whether `r` is what a call of `CustomerGroups.CreateCustomerGroup` gives
/// for what the transport brought back: the reply that the bytes hold, the
/// failure to read them, or the transport's failure as it is.
pub open spec fn create_customer_group_result_of(
    outcome: Result<Vec<u8>, RpcError>,
    r: Result<CreateCustomerGroupReply, RpcError>,
) -> bool {
    match outcome {
        Ok(bytes) => match parse_record(Schema::CreateCustomerGroupReply, bytes@, 0) {
            Ok((parsed, _)) => r matches Ok(val) && val.values() == parsed,
            Err(e) => r == Err::<CreateCustomerGroupReply, RpcError>(
                RpcError::Deserialization { struct_name: "CreateCustomerGroupReply", source: e },
            ),
        },
        Err(e) => r == Err::<CreateCustomerGroupReply, RpcError>(e),
    }
}

/// Reads what came back from a call of `CustomerGroups.CreateCustomerGroup`.
pub fn create_customer_group_result(
    outcome: Result<Vec<u8>, RpcError>,
) -> (r: Result<CreateCustomerGroupReply, RpcError>)
    ensures
        create_customer_group_result_of(outcome, r),
{
    let bytes = outcome?;
    let mut d = Decoder::new(bytes.as_slice());
    match decode_create_customer_group_reply(&mut d) {
        Ok(val) => Ok(val),
        Err(e) => Err(RpcError::Deserialization { struct_name: "CreateCustomerGroupReply", source: e }),
    }
}

/// Reads the request of `CustomerGroups.AddCustomer`.
pub fn add_customer_request(arg: &[u8]) -> (r: Result<AddCustomerRequest, RpcError>)
    ensures
        match parse_record(Schema::AddCustomerRequest, arg@, 0) {
            Ok((parsed, _)) => r matches Ok(val) && val.values() == parsed,
            Err(e) => r == Err::<AddCustomerRequest, RpcError>(
                RpcError::Deserialization { struct_name: "AddCustomerRequest", source: e },
            ),
        },
{
    let mut d = Decoder::new(arg);
    match decode_add_customer_request(&mut d) {
        Ok(val) => Ok(val),
        Err(e) => Err(RpcError::Deserialization { struct_name: "AddCustomerRequest", source: e }),
    }
}

/// Whether `r` is the answer of `CustomerGroups.AddCustomer` to what the
/// handler gave: the handler's reply under the operation's name, or the
/// handler's failure as it is.
pub open spec fn add_customer_answered(
    outcome: Result<AddCustomerReply, RpcError>,
    r: Result<Message, RpcError>,
) -> bool {
    match outcome {
        Ok(reply) => r matches Ok(m) && m.method@ == "CustomerGroups.AddCustomer"@ && m.arg@
            == record_bytes(Schema::AddCustomerReply, reply.values(), Layout::Mapping),
        Err(e) => r == Err::<Message, RpcError>(e),
    }
}

/// Writes the answer of `CustomerGroups.AddCustomer`.
pub fn add_customer_answer(
    outcome: Result<AddCustomerReply, RpcError>,
) -> (r: Result<Message, RpcError>)
    ensures
        add_customer_answered(outcome, r),
{
    let reply = outcome?;
    let mut e = Encoder::new();
    if encode_add_customer_reply(&mut e, &reply).is_err() {
        return Err(RpcError::Serialization { struct_name: "AddCustomerReply" });
    }
    Ok(answer("CustomerGroups.AddCustomer", e))
}

/// Whether `m` is the call of `CustomerGroups.AddCustomer` with `arg`: the
/// operation's name and the bytes of the argument.
pub open spec fn add_customer_called(arg: AddCustomerRequest, m: Message) -> bool {
    m.method@ == "CustomerGroups.AddCustomer"@
        && m.arg@ == record_bytes(Schema::AddCustomerRequest, arg.values(), Layout::Mapping)
}

/// Writes the call of `CustomerGroups.AddCustomer`.
pub fn add_customer_call(arg: &AddCustomerRequest) -> (r: Result<Message, RpcError>)
    ensures
        r matches Ok(m) && add_customer_called(*arg, m),
{
    let mut e = Encoder::new();
    if encode_add_customer_request(&mut e, arg).is_err() {
        return Err(RpcError::Serialization { struct_name: "AddCustomerRequest" });
    }
    Ok(answer("CustomerGroups.AddCustomer", e))
}

/// Whether `r` is what a call of `CustomerGroups.AddCustomer` gives for
/// what the transport brought back: the reply that the bytes hold, the
/// failure to read them, or the transport's failure as it is.
pub open spec fn add_customer_result_of(
    outcome: Result<Vec<u8>, RpcError>,
    r: Result<AddCustomerReply, RpcError>,
) -> bool {
    match outcome {
        Ok(bytes) => match parse_record(Schema::AddCustomerReply, bytes@, 0) {
            Ok((parsed, _)) => r matches Ok(val) && val.values() == parsed,
            Err(e) => r == Err::<AddCustomerReply, RpcError>(
                RpcError::Deserialization { struct_name: "AddCustomerReply", source: e },
            ),
        },
        Err(e) => r == Err::<AddCustomerReply, RpcError>(e),
    }
}

/// Reads what came back from a call of `CustomerGroups.AddCustomer`.
pub fn add_customer_result(
    outcome: Result<Vec<u8>, RpcError>,
) -> (r: Result<AddCustomerReply, RpcError>)
    ensures
        add_customer_result_of(outcome, r),
{
    let bytes = outcome?;
    let mut d = Decoder::new(bytes.as_slice());
    match decode_add_customer_reply(&mut d) {
        Ok(val) => Ok(val),
        Err(e) => Err(RpcError::Deserialization { struct_name: "AddCustomerReply", source: e }),
    }
}

/// Reads the request of `CustomerGroups.ListCustomers`.
pub fn list_customers_request(arg: &[u8]) -> (r: Result<String, RpcError>)
    ensures
        match parse_text(arg@, 0) {
            Ok((parsed, _)) => r matches Ok(val) && val@ == parsed,
            Err(e) => r == Err::<String, RpcError>(
                RpcError::Deserialization { struct_name: "String", source: e },
            ),
        },
{
    let mut d = Decoder::new(arg);
    match d.text() {
        Ok(val) => Ok(val),
        Err(e) => Err(RpcError::Deserialization { struct_name: "String", source: e }),
    }
}

/// Whether `r` is the answer of `CustomerGroups.ListCustomers` to what the
/// handler gave: the handler's reply under the operation's name, or the
/// handler's failure as it is.
pub open spec fn list_customers_answered(
    outcome: Result<Vec<Customer>, RpcError>,
    r: Result<Message, RpcError>,
) -> bool {
    match outcome {
        Ok(reply) => r matches Ok(m) && m.method@ == "CustomerGroups.ListCustomers"@ && m.arg@
            == record_list_bytes(Schema::Customer, customers_values(reply@), Layout::Mapping),
        Err(e) => r == Err::<Message, RpcError>(e),
    }
}

/// Writes the answer of `CustomerGroups.ListCustomers`.
pub fn list_customers_answer(
    outcome: Result<Vec<Customer>, RpcError>,
) -> (r: Result<Message, RpcError>)
    ensures
        list_customers_answered(outcome, r),
{
    let reply = outcome?;
    let mut e = Encoder::new();
    if encode_customer_list(&mut e, &reply).is_err() {
        return Err(RpcError::Serialization { struct_name: "ListCustomersReply" });
    }
    Ok(answer("CustomerGroups.ListCustomers", e))
}

/// Whether `m` is the call of `CustomerGroups.ListCustomers` with `arg`:
/// the operation's name and the bytes of the argument.
pub open spec fn list_customers_called(arg: Seq<char>, m: Message) -> bool {
    m.method@ == "CustomerGroups.ListCustomers"@ && m.arg@ == text_bytes(arg)
}

/// Writes the call of `CustomerGroups.ListCustomers`.
pub fn list_customers_call(arg: &str) -> (r: Result<Message, RpcError>)
    ensures
        r matches Ok(m) && list_customers_called(arg@, m),
{
    let mut e = Encoder::new();
    if e.text(arg).is_err() {
        return Err(RpcError::Serialization { struct_name: "String" });
    }
    Ok(answer("CustomerGroups.ListCustomers", e))
}

/// Whether `r` is what a call of `CustomerGroups.ListCustomers` gives for
/// what the transport brought back: the reply that the bytes hold, the
/// failure to read them, or the transport's failure as it is.
pub open spec fn list_customers_result_of(
    outcome: Result<Vec<u8>, RpcError>,
    r: Result<Vec<Customer>, RpcError>,
) -> bool {
    match outcome {
        Ok(bytes) => match parse_record_list(Schema::Customer, bytes@, 0) {
            Ok((parsed, _)) => r matches Ok(val) && customers_values(val@) == parsed,
            Err(e) => r == Err::<Vec<Customer>, RpcError>(
                RpcError::Deserialization { struct_name: "ListCustomersReply", source: e },
            ),
        },
        Err(e) => r == Err::<Vec<Customer>, RpcError>(e),
    }
}

/// Reads what came back from a call of `CustomerGroups.ListCustomers`.
pub fn list_customers_result(
    outcome: Result<Vec<u8>, RpcError>,
) -> (r: Result<Vec<Customer>, RpcError>)
    ensures
        list_customers_result_of(outcome, r),
{
    let bytes = outcome?;
    let mut d = Decoder::new(bytes.as_slice());
    match decode_customer_list(&mut d) {
        Ok(val) => Ok(val),
        Err(e) => Err(RpcError::Deserialization { struct_name: "ListCustomersReply", source: e }),
    }
}

/// Whether `r` is what a receiver gives for a call of
/// `CustomerGroups.CreateCustomerGroup` with the payload `arg`, where the
/// handler is `before` at the call and `after` behind it: the handler was
/// given the request that the payload holds, and `r` is the answer to what
/// the handler gave. Where the payload holds no request, the handler was
/// not called.
pub open spec fn create_customer_group_served<H: CustomerGroups>(
    before: H,
    arg: Seq<u8>,
    after: H,
    r: Result<Message, RpcError>,
) -> bool {
    match parse_record(Schema::CustomerGroup, arg, 0) {
        Ok((parsed, _)) => exists|value: CustomerGroup, outcome: Result<CreateCustomerGroupReply, RpcError>|
            value.values() == parsed
                && #[trigger] before.create_customer_group_outcome(value, after, outcome)
                && create_customer_group_answered(outcome, r),
        Err(e) => after == before && r == Err::<Message, RpcError>(
            RpcError::Deserialization { struct_name: "CustomerGroup", source: e },
        ),
    }
}

/// Whether `r` is what a receiver gives for a call of
/// `CustomerGroups.AddCustomer` with the payload `arg`, where the handler
/// is `before` at the call and `after` behind it: the handler was given the
/// request that the payload holds, and `r` is the answer to what the
/// handler gave. Where the payload holds no request, the handler was not
/// called.
pub open spec fn add_customer_served<H: CustomerGroups>(
    before: H,
    arg: Seq<u8>,
    after: H,
    r: Result<Message, RpcError>,
) -> bool {
    match parse_record(Schema::AddCustomerRequest, arg, 0) {
        Ok((parsed, _)) => exists|value: AddCustomerRequest, outcome: Result<AddCustomerReply, RpcError>|
            value.values() == parsed
                && #[trigger] before.add_customer_outcome(value, after, outcome)
                && add_customer_answered(outcome, r),
        Err(e) => after == before && r == Err::<Message, RpcError>(
            RpcError::Deserialization { struct_name: "AddCustomerRequest", source: e },
        ),
    }
}

/// Whether `r` is what a receiver gives for a call of
/// `CustomerGroups.ListCustomers` with the payload `arg`, where the handler
/// is `before` at the call and `after` behind it: the handler was given the
/// request that the payload holds, and `r` is the answer to what the
/// handler gave. Where the payload holds no request, the handler was not
/// called.
pub open spec fn list_customers_served<H: CustomerGroups>(
    before: H,
    arg: Seq<u8>,
    after: H,
    r: Result<Message, RpcError>,
) -> bool {
    match parse_text(arg, 0) {
        Ok((parsed, _)) => exists|outcome: Result<Vec<Customer>, RpcError>|
            #[trigger] before.list_customers_outcome(parsed, after, outcome)
                && list_customers_answered(outcome, r),
        Err(e) => after == before && r == Err::<Message, RpcError>(
            RpcError::Deserialization { struct_name: "String", source: e },
        ),
    }
}

/// Receives the messages of the `CustomerGroups` service.
pub trait CustomerGroupsReceiver: CustomerGroups {
    /// Routes `message` to the operation that it names. Where the service
    /// has no such operation, or the payload is not a request of that
    /// operation, the handler is not called.
    fn dispatch(&mut self, message: &Message) -> (r: Result<Message, RpcError>)
        ensures
            match CustomerGroupsOperation::named(message.method@) {
                None => *final(self) == *old(self) && (r matches Err(
                    RpcError::MethodNotHandled { service, method },
                ) && service == "CustomerGroups" && method@ == message.method@),
                Some(CustomerGroupsOperation::CreateCustomerGroup) => create_customer_group_served(
                    *old(self),
                    message.arg@,
                    *final(self),
                    r,
                ),
                Some(CustomerGroupsOperation::AddCustomer) => add_customer_served(
                    *old(self),
                    message.arg@,
                    *final(self),
                    r,
                ),
                Some(CustomerGroupsOperation::ListCustomers) => list_customers_served(
                    *old(self),
                    message.arg@,
                    *final(self),
                    r,
                ),
            },
    {
        match CustomerGroupsOperation::from_name(message.method.as_str()) {
            Some(CustomerGroupsOperation::CreateCustomerGroup) => {
                let value = create_customer_group_request(message.arg.as_slice())?;
                let outcome = self.create_customer_group(&value);
                let r = create_customer_group_answer(outcome);
                proof {
                    assert(old(self).create_customer_group_outcome(value, *self, outcome));
                }
                r
            },
            Some(CustomerGroupsOperation::AddCustomer) => {
                let value = add_customer_request(message.arg.as_slice())?;
                let outcome = self.add_customer(&value);
                let r = add_customer_answer(outcome);
                proof {
                    assert(old(self).add_customer_outcome(value, *self, outcome));
                }
                r
            },
            Some(CustomerGroupsOperation::ListCustomers) => {
                let value = list_customers_request(message.arg.as_slice())?;
                let outcome = self.list_customers(value.as_str());
                let r = list_customers_answer(outcome);
                proof {
                    assert(old(self).list_customers_outcome(value@, *self, outcome));
                }
                r
            },
            None => Err(method_not_handled("CustomerGroups", message.method.as_str())),
        }
    }
}

impl<T: CustomerGroups> CustomerGroupsReceiver for T {

}

/// Calls a group service over a transport.
pub struct CustomerGroupsSender<T: Transport> {
    transport: T,
    timeout_ms: Option<u64>,
}

impl<T: Transport> CustomerGroupsSender<T> {
    /// How long the sender lets the transport wait for an answer, in
    /// milliseconds. Without a limit the transport decides.
    pub closed spec fn timeout(&self) -> Option<u64> {
        self.timeout_ms
    }

    /// The transport that carries the calls.
    pub closed spec fn transport(&self) -> T {
        self.transport
    }

    /// A sender that calls through `transport`.
    pub fn via(transport: T) -> (s: CustomerGroupsSender<T>)
        ensures
            s.transport() == transport,
            s.timeout() is None,
    {
        CustomerGroupsSender { transport, timeout_ms: None }
    }

    /// Limits the wait for each answer to `interval_ms` milliseconds.
    pub fn set_timeout(&mut self, interval_ms: u64)
        ensures
            final(self).transport() == old(self).transport(),
            final(self).timeout() == Some(interval_ms),
    {
        self.timeout_ms = Some(interval_ms);
    }
}

/// Whether `r` is what a sender gives for
/// `CustomerGroups.CreateCustomerGroup` with `arg`, where the sender is
/// `before` at the call and `after` behind it: the transport was handed the
/// call once, with the sender's limit, and `r` is what the transport
/// brought back, read as the operation's reply. The limit stays as it is.
pub open spec fn create_customer_group_sent<T: Transport>(
    before: CustomerGroupsSender<T>,
    arg: CustomerGroup,
    after: CustomerGroupsSender<T>,
    r: Result<CreateCustomerGroupReply, RpcError>,
) -> bool {
    &&& after.timeout() == before.timeout()
    &&& exists|message: Message, outcome: Result<Vec<u8>, RpcError>|
        create_customer_group_called(arg, message) && #[trigger] before.transport().carried(
            message,
            before.timeout(),
            after.transport(),
            outcome,
        ) && create_customer_group_result_of(outcome, r)
}

/// Whether `r` is what a sender gives for `CustomerGroups.AddCustomer` with
/// `arg`, where the sender is `before` at the call and `after` behind it:
/// the transport was handed the call once, with the sender's limit, and `r`
/// is what the transport brought back, read as the operation's reply. The
/// limit stays as it is.
pub open spec fn add_customer_sent<T: Transport>(
    before: CustomerGroupsSender<T>,
    arg: AddCustomerRequest,
    after: CustomerGroupsSender<T>,
    r: Result<AddCustomerReply, RpcError>,
) -> bool {
    &&& after.timeout() == before.timeout()
    &&& exists|message: Message, outcome: Result<Vec<u8>, RpcError>|
        add_customer_called(arg, message) && #[trigger] before.transport().carried(
            message,
            before.timeout(),
            after.transport(),
            outcome,
        ) && add_customer_result_of(outcome, r)
}

/// Whether `r` is what a sender gives for `CustomerGroups.ListCustomers`
/// with `arg`, where the sender is `before` at the call and `after` behind
/// it: the transport was handed the call once, with the sender's limit, and
/// `r` is what the transport brought back, read as the operation's reply.
/// The limit stays as it is.
pub open spec fn list_customers_sent<T: Transport>(
    before: CustomerGroupsSender<T>,
    arg: Seq<char>,
    after: CustomerGroupsSender<T>,
    r: Result<Vec<Customer>, RpcError>,
) -> bool {
    &&& after.timeout() == before.timeout()
    &&& exists|message: Message, outcome: Result<Vec<u8>, RpcError>|
        list_customers_called(arg, message) && #[trigger] before.transport().carried(
            message,
            before.timeout(),
            after.transport(),
            outcome,
        ) && list_customers_result_of(outcome, r)
}

impl<T: Transport> CustomerGroups for CustomerGroupsSender<T> {
    /// What a call through the transport gives.
    open spec fn create_customer_group_outcome(
        &self,
        arg: CustomerGroup,
        after: Self,
        r: Result<CreateCustomerGroupReply, RpcError>,
    ) -> bool {
        create_customer_group_sent(*self, arg, after, r)
    }

    /// Makes one call of `CustomerGroups.CreateCustomerGroup`: one message
    /// out, one answer back.
    fn create_customer_group(
        &mut self,
        arg: &CustomerGroup,
    ) -> (r: Result<CreateCustomerGroupReply, RpcError>)
        ensures
            create_customer_group_sent(*old(self), *arg, *final(self), r),
    {
        let message = create_customer_group_call(arg)?;
        let ghost sent = message;
        let outcome = self.transport.send(message, self.timeout_ms);
        let ghost brought = outcome;
        let r = create_customer_group_result(outcome);
        proof {
            assert(old(self).transport().carried(
                sent,
                old(self).timeout(),
                self.transport(),
                brought,
            ));
        }
        r
    }

    /// What a call through the transport gives.
    open spec fn add_customer_outcome(
        &self,
        arg: AddCustomerRequest,
        after: Self,
        r: Result<AddCustomerReply, RpcError>,
    ) -> bool {
        add_customer_sent(*self, arg, after, r)
    }

    /// Makes one call of `CustomerGroups.AddCustomer`: one message out, one
    /// answer back.
    fn add_customer(&mut self, arg: &AddCustomerRequest) -> (r: Result<AddCustomerReply, RpcError>)
        ensures
            add_customer_sent(*old(self), *arg, *final(self), r),
    {
        let message = add_customer_call(arg)?;
        let ghost sent = message;
        let outcome = self.transport.send(message, self.timeout_ms);
        let ghost brought = outcome;
        let r = add_customer_result(outcome);
        proof {
            assert(old(self).transport().carried(
                sent,
                old(self).timeout(),
                self.transport(),
                brought,
            ));
        }
        r
    }

    /// What a call through the transport gives.
    open spec fn list_customers_outcome(
        &self,
        arg: Seq<char>,
        after: Self,
        r: Result<Vec<Customer>, RpcError>,
    ) -> bool {
        list_customers_sent(*self, arg, after, r)
    }

    /// Makes one call of `CustomerGroups.ListCustomers`: one message out,
    /// one answer back.
    fn list_customers(&mut self, arg: &str) -> (r: Result<Vec<Customer>, RpcError>)
        ensures
            list_customers_sent(*old(self), arg@, *final(self), r),
    {
        let message = list_customers_call(arg)?;
        let ghost sent = message;
        let outcome = self.transport.send(message, self.timeout_ms);
        let ghost brought = outcome;
        let r = list_customers_result(outcome);
        proof {
            assert(old(self).transport().carried(
                sent,
                old(self).timeout(),
                self.transport(),
                brought,
            ));
        }
        r
    }
}


/// A transport to a handler of the `CustomerGroups` service in the same
/// process. It hands each call to the handler's receiver and brings the
/// bytes of the answer back. No call takes time, so the limit on the
/// wait plays no part.
pub struct CustomerGroupsLocal<H: CustomerGroups> {
    handler: H,
}

impl<H: CustomerGroups> CustomerGroupsLocal<H> {
    /// The handler that serves the calls.
    pub closed spec fn handler(&self) -> H {
        self.handler
    }

    /// A transport to `handler`.
    pub fn to(handler: H) -> (t: CustomerGroupsLocal<H>)
        ensures
            t.handler() == handler,
    {
        CustomerGroupsLocal { handler }
    }

    /// Hands the handler out.
    pub fn into_handler(self) -> (handler: H)
        ensures
            handler == self.handler(),
    {
        self.handler
    }
}

impl<H: CustomerGroups> Transport for CustomerGroupsLocal<H> {
    /// What the receiver gives for the call comes back: the bytes of its
    /// answer, or its failure. A call of a method that the service does
    /// not have fails, and the handler is not called.
    open spec fn carried(
        &self,
        message: Message,
        timeout_ms: Option<u64>,
        after: Self,
        r: Result<Vec<u8>, RpcError>,
    ) -> bool {
        match CustomerGroupsOperation::wired(message.method@) {
            None => after == *self && (r matches Err(
                RpcError::MethodNotHandled { service, method },
            ) && service == "CustomerGroups" && method@ == message.method@),
            Some(CustomerGroupsOperation::CreateCustomerGroup) => exists|answer: Result<Message, RpcError>|
                #[trigger] create_customer_group_served(self.handler(), message.arg@, after.handler(), answer)
                    && r == brought_back(answer),
            Some(CustomerGroupsOperation::AddCustomer) => exists|answer: Result<Message, RpcError>|
                #[trigger] add_customer_served(self.handler(), message.arg@, after.handler(), answer)
                    && r == brought_back(answer),
            Some(CustomerGroupsOperation::ListCustomers) => exists|answer: Result<Message, RpcError>|
                #[trigger] list_customers_served(self.handler(), message.arg@, after.handler(), answer)
                    && r == brought_back(answer),
        }
    }

    fn send(
        &mut self,
        message: Message,
        timeout_ms: Option<u64>,
    ) -> (r: Result<Vec<u8>, RpcError>) {
        match CustomerGroupsOperation::from_wire_name(message.method.as_str()) {
            Some(operation) => {
                let bare = Message { method: operation.bare().to_owned(), arg: message.arg };
                proof {
                    operation.lemma_named();
                }
                let answer = self.handler.dispatch(&bare);
                let ghost given = answer;
                let r = match answer {
                    Ok(m) => Ok(m.arg),
                    Err(e) => Err(e),
                };
                proof {
                    assert(r == brought_back(given));
                    assert(bare.arg@ == message.arg@);
                    match operation {
                        CustomerGroupsOperation::CreateCustomerGroup => {
                            assert(create_customer_group_served(
                                old(self).handler(),
                                message.arg@,
                                self.handler(),
                                given,
                            ));
                        },
                        CustomerGroupsOperation::AddCustomer => {
                            assert(add_customer_served(
                                old(self).handler(),
                                message.arg@,
                                self.handler(),
                                given,
                            ));
                        },
                        CustomerGroupsOperation::ListCustomers => {
                            assert(list_customers_served(
                                old(self).handler(),
                                message.arg@,
                                self.handler(),
                                given,
                            ));
                        },
                    }
                }
                r
            },
            None => Err(method_not_handled("CustomerGroups", message.method.as_str())),
        }
    }
}

} // verus!
