use shared_bucket::customer_groups::CustomerGroupsOperation;
use shared_bucket::customers::CustomersOperation;
use shared_bucket::error::decimal;
use shared_bucket::gateway::{
    add_customer_status, create_customer_group_status, create_customer_status,
    find_customer_status, route, Route, Status,
};
use shared_bucket::registry::Operation;
use shared_bucket::service_vendors::ServiceVendorsOperation;
use shared_bucket::{
    AddCustomerReply, CreateCustomerGroupReply, CreateCustomerReply, Customer, DecodeError,
    FindCustomerReply, RpcError, WireKind,
};

fn t(text: &str) -> String {
    text.to_string()
}

fn path(segments: Vec<&str>) -> Vec<String> {
    segments.into_iter().map(t).collect()
}

#[test]
fn numbers_in_decimal_digits() {
    assert_eq!(decimal(0), "0");
    assert_eq!(decimal(7), "7");
    assert_eq!(decimal(9), "9");
    assert_eq!(decimal(10), "10");
    assert_eq!(decimal(1234567890), "1234567890");
    assert_eq!(decimal(u64::MAX), "18446744073709551615");
}

#[test]
fn kinds_in_words() {
    assert_eq!(WireKind::Flag.name(), "flag");
    assert_eq!(WireKind::Null.name(), "null");
    assert_eq!(WireKind::Text.name(), "text");
    assert_eq!(WireKind::Array.name(), "array");
    assert_eq!(WireKind::Mapping.name(), "map");
    assert_eq!(WireKind::Other.name(), "other");
}

#[test]
fn decode_failures_in_words() {
    assert_eq!(DecodeError::Malformed.message(), "malformed input");
    assert_eq!(
        DecodeError::TypeMismatch { expected: WireKind::Text, found: WireKind::Flag }.message(),
        "expected text, found flag"
    );
    assert_eq!(
        DecodeError::NotAStruct { struct_name: "Customer", found: WireKind::Null }.message(),
        "decoding struct Customer, expected array or map, found null"
    );
    assert_eq!(
        DecodeError::MissingField { struct_name: "Customer", field_name: "email", field_index: 2 }.message(),
        "missing field Customer.email (#2)"
    );
    assert_eq!(
        DecodeError::MissingField { struct_name: "Wide", field_name: "last", field_index: 120 }.message(),
        "missing field Wide.last (#120)"
    );
}

#[test]
fn nested_failure_names_the_whole_path() {
    let inner = DecodeError::MissingField { struct_name: "Customer", field_name: "email", field_index: 2 };
    let outer = DecodeError::InField {
        struct_name: "FindCustomerReply",
        field_name: "customer",
        source: Box::new(inner),
    };
    assert_eq!(outer.message(), "decoding FindCustomerReply.customer: missing field Customer.email (#2)");
    let twice = DecodeError::InField { struct_name: "Outer", field_name: "reply", source: Box::new(outer) };
    assert_eq!(
        twice.message(),
        "decoding Outer.reply: decoding FindCustomerReply.customer: missing field Customer.email (#2)"
    );
}

#[test]
fn rpc_failures_in_words() {
    assert_eq!(
        RpcError::MethodNotHandled { service: "Customers", method: t("Nope") }.message(),
        "method not handled Customers::Nope"
    );
    assert_eq!(
        RpcError::Deserialization { struct_name: "Customer", source: DecodeError::Malformed }.message(),
        "deserialization: 'Customer': malformed input"
    );
    assert_eq!(
        RpcError::Serialization { struct_name: "CreateCustomerReply" }.message(),
        "serialization: 'CreateCustomerReply'"
    );
    assert_eq!(
        RpcError::Timeout { target: t("customers"), method: t("Customers.FindCustomer"), elapsed_ms: 1500 }
            .message(),
        "timeout: customers did not answer Customers.FindCustomer within 1500 ms"
    );
    assert_eq!(
        RpcError::TransportError { target: t("customers"), cause: t("connection reset") }.message(),
        "transport: customers: connection reset"
    );
    assert_eq!(RpcError::NotFound { what: t("G") }.message(), "'G' does not exist");
    assert_eq!(RpcError::AlreadyExists { what: t("G") }.message(), "'G' already exists");
    assert_eq!(RpcError::BusinessFailure { reason: t("store") }.message(), "failed: store");
}

#[test]
fn operations_by_their_wire_names() {
    let all = vec![
        (Operation::Customers(CustomersOperation::CreateCustomer), "Customers.CreateCustomer", "Customers"),
        (Operation::Customers(CustomersOperation::FindCustomer), "Customers.FindCustomer", "Customers"),
        (
            Operation::CustomerGroups(CustomerGroupsOperation::CreateCustomerGroup),
            "CustomerGroups.CreateCustomerGroup",
            "CustomerGroups",
        ),
        (Operation::CustomerGroups(CustomerGroupsOperation::AddCustomer), "CustomerGroups.AddCustomer", "CustomerGroups"),
        (
            Operation::CustomerGroups(CustomerGroupsOperation::ListCustomers),
            "CustomerGroups.ListCustomers",
            "CustomerGroups",
        ),
        (
            Operation::ServiceVendors(ServiceVendorsOperation::AuthorizeServiceUsage),
            "ServiceVendors.AuthorizeServiceUsage",
            "ServiceVendors",
        ),
        (Operation::ServiceVendors(ServiceVendorsOperation::BuyService), "ServiceVendors.BuyService", "ServiceVendors"),
    ];
    for (operation, name, service) in all {
        assert_eq!(operation.name(), name);
        assert_eq!(operation.service(), service);
        assert_eq!(Operation::from_wire_name(name), Some(operation));
    }
    for name in vec!["", "CreateCustomer", "Customers.", "customers.CreateCustomer", "Customers.CreateCustomer "] {
        assert_eq!(Operation::from_wire_name(name), None);
    }
}

#[test]
fn requests_are_routed_by_method_and_path() {
    assert_eq!(route("POST", path(vec!["customers"])), Route::CreateCustomer);
    assert_eq!(route("GET", path(vec!["customers", "42"])), Route::FindCustomer { id: t("42") });
    assert_eq!(route("POST", path(vec!["customer-groups"])), Route::CreateCustomerGroup);
    assert_eq!(
        route("GET", path(vec!["customer-groups", "gold", "customers"])),
        Route::ListCustomers { group: t("gold") }
    );
    assert_eq!(
        route("POST", path(vec!["customer-groups", "gold", "customers", "42"])),
        Route::AddCustomer { group: t("gold"), customer: t("42") }
    );
}

#[test]
fn other_requests_lead_nowhere() {
    for (method, segments) in vec![
        ("GET", vec!["customers"]),
        ("POST", vec!["customers", "42"]),
        ("PUT", vec!["customers"]),
        ("post", vec!["customers"]),
        ("GET", vec!["customer-groups"]),
        ("POST", vec!["customer-groups", "gold", "customers"]),
        ("GET", vec!["customer-groups", "gold", "members"]),
        ("GET", vec!["customer-groups", "gold", "customers", "42"]),
        ("POST", vec!["customer-groups", "gold", "members", "42"]),
        ("POST", vec!["customers", "gold", "customers", "42"]),
        ("POST", vec!["customer-groups", "gold", "customers", "42", "x"]),
        ("GET", vec![]),
        ("GET", vec![""]),
        ("DELETE", vec!["customer-groups", "gold"]),
    ] {
        assert_eq!(route(method, path(segments)), Route::NotFound);
    }
}

#[test]
fn outcomes_turn_into_statuses() {
    assert_eq!(create_customer_status(&CreateCustomerReply { id: t("1"), success: true }), Status::Done);
    assert_eq!(
        create_customer_status(&CreateCustomerReply { id: t(""), success: false }),
        Status::Failed("Failed to create customer")
    );
    let customer = Customer {
        address: None,
        city: None,
        email: t("e"),
        first_name: t("f"),
        id: None,
        last_name: None,
        telephone: None,
    };
    assert_eq!(find_customer_status(&FindCustomerReply { customer: Some(customer) }), Status::Done);
    assert_eq!(find_customer_status(&FindCustomerReply { customer: None }), Status::NotFound);
    assert_eq!(create_customer_group_status(&CreateCustomerGroupReply { success: true }), Status::Done);
    assert_eq!(
        create_customer_group_status(&CreateCustomerGroupReply { success: false }),
        Status::Failed("Failed to create customer")
    );
    assert_eq!(add_customer_status(&AddCustomerReply { success: true }), Status::Done);
    assert_eq!(
        add_customer_status(&AddCustomerReply { success: false }),
        Status::Failed("Error adding customer to group")
    );
}

#[test]
fn defaults_are_empty() {
    let customer = Customer::default();
    assert_eq!(
        customer,
        Customer {
            address: None,
            city: None,
            email: t(""),
            first_name: t(""),
            id: None,
            last_name: None,
            telephone: None,
        }
    );
    assert_eq!(CreateCustomerReply::default(), CreateCustomerReply { id: t(""), success: false });
    assert_eq!(FindCustomerReply::default(), FindCustomerReply { customer: None });
    assert_eq!(
        shared_bucket::ServiceOrder::default(),
        shared_bucket::ServiceOrder { amount: t(""), service: shared_bucket::Service { id: t("") } }
    );
    assert_eq!(
        shared_bucket::CustomerGroup::default(),
        shared_bucket::CustomerGroup { members: None, name: t("") }
    );
    assert_eq!(AddCustomerReply::default(), AddCustomerReply { success: false });
    assert_eq!(CreateCustomerGroupReply::default(), CreateCustomerGroupReply { success: false });
}

#[test]
fn values_in_memory_are_confirmed_to_fit() {
    let customer = Customer {
        address: Some(t("1 Main St")),
        city: None,
        email: t("e@x"),
        first_name: "x".repeat(70000),
        id: None,
        last_name: None,
        telephone: None,
    };
    customer.confirm();
    FindCustomerReply { customer: Some(customer.clone()) }.confirm();
    CreateCustomerReply { id: t("1"), success: true }.confirm();
    shared_bucket::CustomerGroup { members: Some(vec![t("a"), t("b")]), name: t("G") }.confirm();
    shared_bucket::ServiceOrder { amount: t("1"), service: shared_bucket::Service { id: t("s") } }.confirm();
    shared_bucket::codec::customer_list::confirm_customers(&vec![customer.clone(), customer]);
    shared_bucket::wire_laws::confirm_text("");
    shared_bucket::laws::confirm_texts(&vec![]);
}
