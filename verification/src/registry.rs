//! The operations of all services, by the names under which they travel.
//!
//! A method's name on the wire is the service's name, a dot, and the
//! operation's name. The name is the only key of routing: caller and
//! callee must write it alike, letter for letter.

use vstd::prelude::*;
use crate::cbor::same_text;
use crate::customer_groups::CustomerGroupsOperation;
use crate::customers::CustomersOperation;
use crate::service_vendors::ServiceVendorsOperation;

verus! {

/// An operation of one of the services.
#[derive(Clone, Copy, Debug, PartialEq, Eq, Structural)]
pub enum Operation {
    Customers(CustomersOperation),
    CustomerGroups(CustomerGroupsOperation),
    ServiceVendors(ServiceVendorsOperation),
}

impl Operation {
    /// The name under which the operation travels between services.
    pub open spec fn wire_name(self) -> &'static str {
        match self {
            Operation::Customers(op) => op.wire_name(),
            Operation::CustomerGroups(op) => op.wire_name(),
            Operation::ServiceVendors(op) => op.wire_name(),
        }
    }

    /// The name of the service that has the operation.
    pub open spec fn service_name(self) -> &'static str {
        match self {
            Operation::Customers(_) => "Customers",
            Operation::CustomerGroups(_) => "CustomerGroups",
            Operation::ServiceVendors(_) => "ServiceVendors",
        }
    }

    /// The operation that travels under `method`.
    pub open spec fn wired(method: Seq<char>) -> Option<Operation> {
        if method == "Customers.CreateCustomer"@ {
            Some(Operation::Customers(CustomersOperation::CreateCustomer))
        } else if method == "Customers.FindCustomer"@ {
            Some(Operation::Customers(CustomersOperation::FindCustomer))
        } else if method == "CustomerGroups.CreateCustomerGroup"@ {
            Some(Operation::CustomerGroups(CustomerGroupsOperation::CreateCustomerGroup))
        } else if method == "CustomerGroups.AddCustomer"@ {
            Some(Operation::CustomerGroups(CustomerGroupsOperation::AddCustomer))
        } else if method == "CustomerGroups.ListCustomers"@ {
            Some(Operation::CustomerGroups(CustomerGroupsOperation::ListCustomers))
        } else if method == "ServiceVendors.AuthorizeServiceUsage"@ {
            Some(Operation::ServiceVendors(ServiceVendorsOperation::AuthorizeServiceUsage))
        } else if method == "ServiceVendors.BuyService"@ {
            Some(Operation::ServiceVendors(ServiceVendorsOperation::BuyService))
        } else {
            None
        }
    }

    /// Looks an operation up by the name under which it travels.
    pub fn from_wire_name(method: &str) -> (r: Option<Operation>)
        ensures
            r == Operation::wired(method@),
    {
        if same_text(method, "Customers.CreateCustomer") {
            Some(Operation::Customers(CustomersOperation::CreateCustomer))
        } else if same_text(method, "Customers.FindCustomer") {
            Some(Operation::Customers(CustomersOperation::FindCustomer))
        } else if same_text(method, "CustomerGroups.CreateCustomerGroup") {
            Some(Operation::CustomerGroups(CustomerGroupsOperation::CreateCustomerGroup))
        } else if same_text(method, "CustomerGroups.AddCustomer") {
            Some(Operation::CustomerGroups(CustomerGroupsOperation::AddCustomer))
        } else if same_text(method, "CustomerGroups.ListCustomers") {
            Some(Operation::CustomerGroups(CustomerGroupsOperation::ListCustomers))
        } else if same_text(method, "ServiceVendors.AuthorizeServiceUsage") {
            Some(Operation::ServiceVendors(ServiceVendorsOperation::AuthorizeServiceUsage))
        } else if same_text(method, "ServiceVendors.BuyService") {
            Some(Operation::ServiceVendors(ServiceVendorsOperation::BuyService))
        } else {
            None
        }
    }

    /// The name under which the operation travels between services.
    pub fn name(self) -> (r: &'static str)
        ensures
            r == self.wire_name(),
    {
        match self {
            Operation::Customers(op) => op.name(),
            Operation::CustomerGroups(op) => op.name(),
            Operation::ServiceVendors(op) => op.name(),
        }
    }

    /// The name of the service that has the operation.
    pub fn service(self) -> (r: &'static str)
        ensures
            r == self.service_name(),
    {
        match self {
            Operation::Customers(_) => "Customers",
            Operation::CustomerGroups(_) => "CustomerGroups",
            Operation::ServiceVendors(_) => "ServiceVendors",
        }
    }
}

/// Each operation is found under its own name, and under no other: no two
/// operations travel under the same name.
pub proof fn lemma_names_apart(op: Operation, method: Seq<char>)
    ensures
        Operation::wired(op.wire_name()@) == Some(op),
        Operation::wired(method) == Some(op) ==> method == op.wire_name()@,
{
    reveal_strlit("Customers.CreateCustomer");
    reveal_strlit("Customers.FindCustomer");
    reveal_strlit("CustomerGroups.CreateCustomerGroup");
    reveal_strlit("CustomerGroups.AddCustomer");
    reveal_strlit("CustomerGroups.ListCustomers");
    reveal_strlit("ServiceVendors.AuthorizeServiceUsage");
    reveal_strlit("ServiceVendors.BuyService");
    assert("Customers.CreateCustomer"@.len() == 24);
    assert("Customers.FindCustomer"@.len() == 22);
    assert("CustomerGroups.CreateCustomerGroup"@.len() == 34);
    assert("CustomerGroups.AddCustomer"@.len() == 26);
    assert("CustomerGroups.ListCustomers"@.len() == 28);
    assert("ServiceVendors.AuthorizeServiceUsage"@.len() == 36);
    assert("ServiceVendors.BuyService"@.len() == 25);
}

} // verus!
