use std::cell::RefCell;
use std::collections::BTreeMap;
use std::rc::Rc;

use shared_bucket::customer_groups::{
    add_customer_call, create_customer_group_call, list_customers_call, list_customers_result,
};
use shared_bucket::customers::{create_customer_call, create_customer_result, find_customer_result};
use shared_bucket::directory::{
    add_customer_reply, create_customer_group_reply, create_customer_reply, customer_key,
    find_customer_reply, found_customers, group_key, is_member, plan_add_customer,
    plan_create_customer, plan_create_group, plan_list_customers, Lookup, Put,
};
use shared_bucket::{
    AddCustomerReply, AddCustomerRequest, CreateCustomerGroupReply, CreateCustomerReply, Customer,
    CustomerGroup, CustomerGroups, CustomerGroupsLocal, CustomerGroupsReceiver,
    CustomerGroupsSender, Customers, CustomersLocal, CustomersReceiver, CustomersSender,
    DecodeError, FindCustomerReply, Message, RpcError, Transport,
};

fn s(text: &str) -> String {
    text.to_string()
}

fn ann() -> Customer {
    Customer {
        address: None,
        city: None,
        email: s("a@x.com"),
        first_name: s("Ann"),
        id: None,
        last_name: None,
        telephone: None,
    }
}

fn ben() -> Customer {
    Customer {
        address: Some(s("2 High St")),
        city: Some(s("Bath")),
        email: s("ben@x.com"),
        first_name: s("Ben"),
        id: Some(s("given by the caller")),
        last_name: Some(s("Nevis")),
        telephone: None,
    }
}

fn group(name: &str, members: Option<Vec<&str>>) -> CustomerGroup {
    CustomerGroup { members: members.map(|m| m.into_iter().map(s).collect()), name: s(name) }
}

// ------------------------------------------------------------ decisions

#[test]
fn keys_carry_their_prefix() {
    assert_eq!(customer_key("42"), "customer:42");
    assert_eq!(customer_key(""), "customer:");
    assert_eq!(group_key("gold"), "customer_group:gold");
    assert_eq!(group_key("a:b"), "customer_group:a:b");
}

#[test]
fn new_customer_is_stored_with_its_identifier() {
    let put = plan_create_customer("id-7", ann());
    let mut stored = ann();
    stored.id = Some(s("id-7"));
    assert_eq!(put, Put { key: s("customer:id-7"), value: stored, expires: 0 });
    // An identifier that the caller gave is not kept.
    let put = plan_create_customer("id-8", ben());
    let mut stored = ben();
    stored.id = Some(s("id-8"));
    assert_eq!(put, Put { key: s("customer:id-8"), value: stored, expires: 0 });
}

#[test]
fn reply_to_a_registration() {
    assert_eq!(create_customer_reply(Some(s("id-7")), true), CreateCustomerReply { id: s("id-7"), success: true });
    // Without the write the customer is not stored, and the reply holds no identifier.
    assert_eq!(create_customer_reply(Some(s("id-7")), false), CreateCustomerReply { id: s(""), success: false });
    assert_eq!(create_customer_reply(None, false), CreateCustomerReply { id: s(""), success: false });
    assert_eq!(create_customer_reply(None, true), CreateCustomerReply { id: s(""), success: false });
}

#[test]
fn reply_to_a_lookup() {
    assert_eq!(find_customer_reply(Lookup::Found(ann())), FindCustomerReply { customer: Some(ann()) });
    assert_eq!(find_customer_reply(Lookup::Missing), FindCustomerReply { customer: None });
    // A store that failed looks like a customer that is not there.
    assert_eq!(find_customer_reply(Lookup::Failed), FindCustomerReply { customer: None });
}

#[test]
fn new_group_gets_a_list_of_members() {
    assert_eq!(
        plan_create_group(Lookup::Missing, group("G", None)),
        Ok(Put { key: s("customer_group:G"), value: group("G", Some(vec![])), expires: 0 })
    );
    assert_eq!(
        plan_create_group(Lookup::Missing, group("G", Some(vec!["C1", "C2"]))),
        Ok(Put { key: s("customer_group:G"), value: group("G", Some(vec!["C1", "C2"])), expires: 0 })
    );
    // A read that failed counts as a group that is not there.
    assert_eq!(
        plan_create_group(Lookup::Failed, group("G", None)),
        Ok(Put { key: s("customer_group:G"), value: group("G", Some(vec![])), expires: 0 })
    );
}

#[test]
fn group_that_exists_is_not_created_again() {
    assert_eq!(
        plan_create_group(Lookup::Found(group("G", Some(vec!["C1"]))), group("G", None)),
        Err(RpcError::AlreadyExists { what: s("G") })
    );
}

#[test]
fn replies_carry_the_outcome() {
    assert_eq!(create_customer_group_reply(true), CreateCustomerGroupReply { success: true });
    assert_eq!(create_customer_group_reply(false), CreateCustomerGroupReply { success: false });
    assert_eq!(add_customer_reply(Ok(Some(true))), AddCustomerReply { success: true });
    assert_eq!(add_customer_reply(Ok(Some(false))), AddCustomerReply { success: false });
    // A member that needs no write is a member.
    assert_eq!(add_customer_reply(Ok(None)), AddCustomerReply { success: true });
    assert_eq!(
        add_customer_reply(Err(RpcError::NotFound { what: s("G") })),
        AddCustomerReply { success: false }
    );
    assert_eq!(
        add_customer_reply(Err(RpcError::BusinessFailure { reason: s("G") })),
        AddCustomerReply { success: false }
    );
}

#[test]
fn membership_is_told_by_the_text() {
    let members = vec![s("C1"), s("C2")];
    assert!(is_member(&members, "C1"));
    assert!(is_member(&members, "C2"));
    assert!(!is_member(&members, "C3"));
    assert!(!is_member(&members, "c1"));
    assert!(!is_member(&members, ""));
    assert!(!is_member(&vec![], "C1"));
}

#[test]
fn customer_joins_at_the_end() {
    assert_eq!(
        plan_add_customer(Lookup::Found(group("G", Some(vec!["C1", "C2"]))), "G", "C3"),
        Ok(Some(Put {
            key: s("customer_group:G"),
            value: group("G", Some(vec!["C1", "C2", "C3"])),
            expires: 0,
        }))
    );
    assert_eq!(
        plan_add_customer(Lookup::Found(group("G", None)), "G", "C1"),
        Ok(Some(Put { key: s("customer_group:G"), value: group("G", Some(vec!["C1"])), expires: 0 }))
    );
}

#[test]
fn member_does_not_join_again() {
    assert_eq!(plan_add_customer(Lookup::Found(group("G", Some(vec!["C1", "C2"]))), "G", "C1"), Ok(None));
    assert_eq!(plan_add_customer(Lookup::Found(group("G", Some(vec!["C1", "C2"]))), "G", "C2"), Ok(None));
}

#[test]
fn nobody_joins_a_group_that_is_not_there() {
    assert_eq!(plan_add_customer(Lookup::Missing, "G", "C1"), Err(RpcError::NotFound { what: s("G") }));
    assert_eq!(
        plan_add_customer(Lookup::Failed, "G", "C1"),
        Err(RpcError::BusinessFailure { reason: s("G") })
    );
}

#[test]
fn listing_reads_each_member() {
    assert_eq!(
        plan_list_customers(Lookup::Found(group("G", Some(vec!["C2", "C1"]))), "G"),
        Ok(vec![s("customer:C2"), s("customer:C1")])
    );
    assert_eq!(plan_list_customers(Lookup::Found(group("G", Some(vec![]))), "G"), Ok(vec![]));
    assert_eq!(plan_list_customers(Lookup::Found(group("G", None)), "G"), Ok(vec![]));
    assert_eq!(plan_list_customers(Lookup::Missing, "G"), Err(RpcError::NotFound { what: s("G") }));
    assert_eq!(plan_list_customers(Lookup::Failed, "G"), Err(RpcError::NotFound { what: s("G") }));
}

#[test]
fn listing_keeps_what_was_found() {
    assert_eq!(found_customers(vec![]), vec![]);
    assert_eq!(
        found_customers(vec![Lookup::Found(ann()), Lookup::Missing, Lookup::Found(ben()), Lookup::Failed]),
        vec![ann(), ben()]
    );
    assert_eq!(found_customers(vec![Lookup::Missing, Lookup::Failed]), vec![]);
    assert_eq!(
        found_customers(vec![Lookup::Found(ben()), Lookup::Found(ann()), Lookup::Found(ben())]),
        vec![ben(), ann(), ben()]
    );
}

// ------------------------------------------------- a directory on a shelf

/// A store in memory: keys and what is kept under them.
struct Shelf {
    customers: BTreeMap<String, Customer>,
    groups: BTreeMap<String, CustomerGroup>,
    writes: u32,
    made: u32,
    broken: bool,
}

impl Shelf {
    fn new() -> Shelf {
        Shelf { customers: BTreeMap::new(), groups: BTreeMap::new(), writes: 0, made: 0, broken: false }
    }

    fn customer(&self, key: &str) -> Lookup<Customer> {
        if self.broken {
            return Lookup::Failed;
        }
        match self.customers.get(key) {
            Some(found) => Lookup::Found(found.clone()),
            None => Lookup::Missing,
        }
    }

    fn group(&self, key: &str) -> Lookup<CustomerGroup> {
        if self.broken {
            return Lookup::Failed;
        }
        match self.groups.get(key) {
            Some(found) => Lookup::Found(found.clone()),
            None => Lookup::Missing,
        }
    }

    fn put_customer(&mut self, put: Put<Customer>) -> bool {
        if self.broken {
            return false;
        }
        self.writes += 1;
        self.customers.insert(put.key, put.value);
        true
    }

    fn put_group(&mut self, put: Put<CustomerGroup>) -> bool {
        if self.broken {
            return false;
        }
        self.writes += 1;
        self.groups.insert(put.key, put.value);
        true
    }

    fn new_id(&mut self) -> String {
        self.made += 1;
        format!("00000000-0000-4000-8000-{:012}", self.made)
    }
}

/// The directory as a handler: it reads, lets the library decide, and
/// writes.
#[derive(Clone)]
struct Directory {
    shelf: Rc<RefCell<Shelf>>,
}

impl Directory {
    fn new() -> Directory {
        Directory { shelf: Rc::new(RefCell::new(Shelf::new())) }
    }
}

impl Customers for Directory {
    fn create_customer(&mut self, arg: &Customer) -> Result<CreateCustomerReply, RpcError> {
        let mut shelf = self.shelf.borrow_mut();
        let id = shelf.new_id();
        let written = shelf.put_customer(plan_create_customer(&id, arg.clone()));
        Ok(create_customer_reply(Some(id), written))
    }

    fn find_customer(&mut self, arg: &str) -> Result<FindCustomerReply, RpcError> {
        let shelf = self.shelf.borrow();
        Ok(find_customer_reply(shelf.customer(&customer_key(arg))))
    }
}

impl CustomerGroups for Directory {
    fn create_customer_group(&mut self, arg: &CustomerGroup) -> Result<CreateCustomerGroupReply, RpcError> {
        let mut shelf = self.shelf.borrow_mut();
        let existing = shelf.group(&group_key(&arg.name));
        let put = plan_create_group(existing, arg.clone())?;
        Ok(create_customer_group_reply(shelf.put_group(put)))
    }

    fn add_customer(&mut self, arg: &AddCustomerRequest) -> Result<AddCustomerReply, RpcError> {
        let mut shelf = self.shelf.borrow_mut();
        let existing = shelf.group(&group_key(&arg.group));
        let outcome = match plan_add_customer(existing, &arg.group, &arg.customer) {
            Ok(Some(put)) => Ok(Some(shelf.put_group(put))),
            Ok(None) => Ok(None),
            Err(e) => Err(e),
        };
        Ok(add_customer_reply(outcome))
    }

    fn list_customers(&mut self, arg: &str) -> Result<Vec<Customer>, RpcError> {
        let shelf = self.shelf.borrow();
        let keys = plan_list_customers(shelf.group(&group_key(arg)), arg)?;
        Ok(found_customers(keys.iter().map(|key| shelf.customer(key)).collect()))
    }
}

/// A transport that hands each call to a directory in the same process.
struct Loopback {
    directory: Directory,
    sent: Vec<(String, Option<u64>)>,
}

impl Loopback {
    fn to(directory: &Directory) -> Loopback {
        Loopback { directory: directory.clone(), sent: Vec::new() }
    }
}

impl Transport for Loopback {
    fn send(&mut self, message: Message, timeout_ms: Option<u64>) -> Result<Vec<u8>, RpcError> {
        self.sent.push((message.method.clone(), timeout_ms));
        let (service, operation) = match message.method.split_once('.') {
            Some(parts) => parts,
            None => {
                return Err(RpcError::TransportError { target: s("directory"), cause: s("no service") })
            }
        };
        let bare = Message { method: operation.to_string(), arg: message.arg };
        let answer = match service {
            "Customers" => CustomersReceiver::dispatch(&mut self.directory, &bare)?,
            "CustomerGroups" => CustomerGroupsReceiver::dispatch(&mut self.directory, &bare)?,
            _ => {
                return Err(RpcError::TransportError { target: s("directory"), cause: s("no service") })
            }
        };
        assert_eq!(answer.method, message.method);
        Ok(answer.arg)
    }
}

#[test]
fn adding_a_customer_twice_leaves_one_member() {
    let mut directory = Directory::new();
    assert_eq!(
        directory.create_customer_group(&group("G", None)),
        Ok(CreateCustomerGroupReply { success: true })
    );
    let request = AddCustomerRequest { customer: s("C1"), group: s("G") };
    assert_eq!(directory.add_customer(&request), Ok(AddCustomerReply { success: true }));
    let writes = directory.shelf.borrow().writes;
    assert_eq!(directory.add_customer(&request), Ok(AddCustomerReply { success: true }));
    let shelf = directory.shelf.borrow();
    assert_eq!(shelf.groups.get("customer_group:G"), Some(&group("G", Some(vec!["C1"]))));
    assert_eq!(shelf.groups.get("customer_group:G").unwrap().members.as_ref().unwrap().len(), 1);
    // The second call wrote nothing.
    assert_eq!(shelf.writes, writes);
}

#[test]
fn members_keep_the_order_in_which_they_joined() {
    let mut directory = Directory::new();
    directory.create_customer_group(&group("G", None)).unwrap();
    for customer in vec!["C2", "C1", "C2", "C3", "C1"] {
        let request = AddCustomerRequest { customer: s(customer), group: s("G") };
        assert_eq!(directory.add_customer(&request), Ok(AddCustomerReply { success: true }));
    }
    let shelf = directory.shelf.borrow();
    assert_eq!(shelf.groups.get("customer_group:G"), Some(&group("G", Some(vec!["C2", "C1", "C3"]))));
}

#[test]
fn adding_to_a_group_that_is_not_there_fails() {
    let mut directory = Directory::new();
    let request = AddCustomerRequest { customer: s("C1"), group: s("G") };
    assert_eq!(directory.add_customer(&request), Ok(AddCustomerReply { success: false }));
    assert_eq!(directory.shelf.borrow().writes, 0);
}

#[test]
fn creating_a_group_twice_fails_and_changes_nothing() {
    let mut directory = Directory::new();
    assert_eq!(
        directory.create_customer_group(&group("G", None)),
        Ok(CreateCustomerGroupReply { success: true })
    );
    let request = AddCustomerRequest { customer: s("C1"), group: s("G") };
    directory.add_customer(&request).unwrap();
    let before = directory.shelf.borrow().groups.clone();
    let writes = directory.shelf.borrow().writes;
    assert_eq!(
        directory.create_customer_group(&group("G", None)),
        Err(RpcError::AlreadyExists { what: s("G") })
    );
    assert_eq!(
        directory.create_customer_group(&group("G", Some(vec!["C9"]))),
        Err(RpcError::AlreadyExists { what: s("G") })
    );
    assert_eq!(directory.shelf.borrow().groups, before);
    assert_eq!(directory.shelf.borrow().writes, writes);
    // Another name is another group.
    assert_eq!(
        directory.create_customer_group(&group("H", None)),
        Ok(CreateCustomerGroupReply { success: true })
    );
}

#[test]
fn listing_omits_a_member_without_a_record() {
    let mut directory = Directory::new();
    let first = directory.create_customer(&ann()).unwrap().id;
    let second = directory.create_customer(&ben()).unwrap().id;
    directory.create_customer_group(&group("G", None)).unwrap();
    for customer in vec![first.as_str(), "gone", second.as_str()] {
        let request = AddCustomerRequest { customer: s(customer), group: s("G") };
        assert_eq!(directory.add_customer(&request), Ok(AddCustomerReply { success: true }));
    }
    let mut stored_ann = ann();
    stored_ann.id = Some(first);
    let mut stored_ben = ben();
    stored_ben.id = Some(second);
    assert_eq!(directory.list_customers("G"), Ok(vec![stored_ann, stored_ben]));
    assert_eq!(directory.list_customers("H"), Err(RpcError::NotFound { what: s("H") }));
}

#[test]
fn store_that_fails_is_swallowed() {
    let mut directory = Directory::new();
    directory.shelf.borrow_mut().broken = true;
    assert_eq!(directory.create_customer(&ann()), Ok(CreateCustomerReply { id: s(""), success: false }));
    assert_eq!(directory.find_customer("x"), Ok(FindCustomerReply { customer: None }));
    assert_eq!(
        directory.create_customer_group(&group("G", None)),
        Ok(CreateCustomerGroupReply { success: false })
    );
    let request = AddCustomerRequest { customer: s("C1"), group: s("G") };
    assert_eq!(directory.add_customer(&request), Ok(AddCustomerReply { success: false }));
    assert_eq!(directory.list_customers("G"), Err(RpcError::NotFound { what: s("G") }));
}

#[test]
fn end_to_end_through_sender_and_receiver() {
    let directory = Directory::new();
    let mut customers = CustomersSender::via(Loopback::to(&directory));
    let mut groups = CustomerGroupsSender::via(Loopback::to(&directory));

    let created = customers.create_customer(&ann()).unwrap();
    assert!(created.success);
    assert_eq!(created.id, "00000000-0000-4000-8000-000000000001");

    let mut stored = ann();
    stored.id = Some(created.id.clone());
    assert_eq!(customers.find_customer(&created.id), Ok(FindCustomerReply { customer: Some(stored.clone()) }));
    assert_eq!(customers.find_customer("nobody"), Ok(FindCustomerReply { customer: None }));

    assert_eq!(
        groups.create_customer_group(&group("G", None)),
        Ok(CreateCustomerGroupReply { success: true })
    );
    let request = AddCustomerRequest { customer: created.id.clone(), group: s("G") };
    assert_eq!(groups.add_customer(&request), Ok(AddCustomerReply { success: true }));
    assert_eq!(groups.list_customers("G"), Ok(vec![stored]));

    // A second customer gets an identifier of its own.
    let other = customers.create_customer(&ben()).unwrap();
    assert!(other.success);
    assert_ne!(other.id, created.id);
    // What the handler refuses comes back as the handler's failure.
    assert_eq!(
        groups.create_customer_group(&group("G", None)),
        Err(RpcError::AlreadyExists { what: s("G") })
    );
    assert_eq!(groups.list_customers("none"), Err(RpcError::NotFound { what: s("none") }));
}

// ------------------------------------------------------------- the sender

/// A transport that answers with what it was given.
struct Canned {
    answer: Option<Result<Vec<u8>, RpcError>>,
    seen: Vec<(Message, Option<u64>)>,
}

impl Canned {
    fn with(answer: Result<Vec<u8>, RpcError>) -> Canned {
        Canned { answer: Some(answer), seen: Vec::new() }
    }
}

impl Transport for Canned {
    fn send(&mut self, message: Message, timeout_ms: Option<u64>) -> Result<Vec<u8>, RpcError> {
        self.seen.push((message, timeout_ms));
        self.answer.take().unwrap()
    }
}

#[test]
fn calls_carry_the_method_and_the_encoded_argument() {
    let call = create_customer_call(&ann()).unwrap();
    assert_eq!(call.method, "Customers.CreateCustomer");
    assert_eq!(call.arg[0], 0xa7);
    let call = create_customer_group_call(&group("G", None)).unwrap();
    assert_eq!(call.method, "CustomerGroups.CreateCustomerGroup");
    let mut expected = vec![0xa2, 0x67];
    expected.extend_from_slice(b"members");
    expected.extend_from_slice(&[0xf6, 0x64]);
    expected.extend_from_slice(b"name");
    expected.extend_from_slice(&[0x61, b'G']);
    assert_eq!(call.arg, expected);
    let call = add_customer_call(&AddCustomerRequest { customer: s("C"), group: s("G") }).unwrap();
    assert_eq!(call.method, "CustomerGroups.AddCustomer");
    let call = list_customers_call("G").unwrap();
    assert_eq!(call, Message { method: s("CustomerGroups.ListCustomers"), arg: vec![0x61, b'G'] });
}

#[test]
fn failure_of_the_transport_is_carried_through() {
    let timeout = RpcError::Timeout { target: s("customers"), method: s("Customers.FindCustomer"), elapsed_ms: 250 };
    assert_eq!(
        find_customer_result(Err(RpcError::Timeout {
            target: s("customers"),
            method: s("Customers.FindCustomer"),
            elapsed_ms: 250,
        })),
        Err(timeout)
    );
    let unreachable = RpcError::TransportError { target: s("customers"), cause: s("connection reset") };
    assert_eq!(
        create_customer_result(Err(RpcError::TransportError {
            target: s("customers"),
            cause: s("connection reset"),
        })),
        Err(unreachable)
    );
    assert_eq!(
        list_customers_result(Err(RpcError::NotFound { what: s("G") })),
        Err(RpcError::NotFound { what: s("G") })
    );
}

#[test]
fn answer_that_cannot_be_read_is_reported() {
    assert_eq!(
        create_customer_result(Ok(vec![0x81, 0x61, b'a'])),
        Err(RpcError::Deserialization {
            struct_name: "CreateCustomerReply",
            source: DecodeError::MissingField {
                struct_name: "CreateCustomerReply",
                field_name: "success",
                field_index: 1,
            },
        })
    );
    assert_eq!(
        list_customers_result(Ok(vec![])),
        Err(RpcError::Deserialization { struct_name: "ListCustomersReply", source: DecodeError::Malformed })
    );
    assert_eq!(create_customer_result(Ok(vec![0x82, 0x61, b'a', 0xf5])), Ok(CreateCustomerReply { id: s("a"), success: true }));
}

#[test]
fn sender_makes_one_attempt_with_its_timeout() {
    let failure = RpcError::Timeout { target: s("customers"), method: s("Customers.FindCustomer"), elapsed_ms: 40 };
    let mut sender = CustomersSender::via(Canned::with(Err(failure)));
    assert_eq!(
        sender.find_customer("id-1"),
        Err(RpcError::Timeout { target: s("customers"), method: s("Customers.FindCustomer"), elapsed_ms: 40 })
    );

    let mut sender = CustomersSender::via(Canned::with(Ok(vec![0xa1, 0x68, b'c', b'u', b's', b't', b'o', b'm', b'e', b'r', 0xf6])));
    sender.set_timeout(40);
    assert_eq!(sender.find_customer("id-1"), Ok(FindCustomerReply { customer: None }));
}

/// A transport that notes each call and hands it on.
struct Spy {
    inner: Loopback,
    log: Rc<RefCell<Vec<(String, Option<u64>)>>>,
}

impl Transport for Spy {
    fn send(&mut self, message: Message, timeout_ms: Option<u64>) -> Result<Vec<u8>, RpcError> {
        self.log.borrow_mut().push((message.method.clone(), timeout_ms));
        self.inner.send(message, timeout_ms)
    }
}

#[test]
fn sender_hands_its_timeout_to_the_transport() {
    let directory = Directory::new();
    let shared = Rc::new(RefCell::new(Vec::new()));
    let mut sender = CustomersSender::via(Spy { inner: Loopback::to(&directory), log: shared.clone() });
    sender.find_customer("a").unwrap();
    sender.set_timeout(1500);
    sender.create_customer(&ann()).unwrap();
    assert_eq!(
        *shared.borrow(),
        vec![(s("Customers.FindCustomer"), None), (s("Customers.CreateCustomer"), Some(1500))]
    );
}

#[test]
fn end_to_end_through_the_transports_in_process() {
    let directory = Directory::new();
    let mut customers = CustomersSender::via(CustomersLocal::to(directory.clone()));
    let mut groups = CustomerGroupsSender::via(CustomerGroupsLocal::to(directory.clone()));
    customers.set_timeout(10);

    let created = customers.create_customer(&ann()).unwrap();
    assert_eq!(created, CreateCustomerReply { id: s("00000000-0000-4000-8000-000000000001"), success: true });
    let mut stored = ann();
    stored.id = Some(created.id.clone());
    assert_eq!(customers.find_customer(&created.id), Ok(FindCustomerReply { customer: Some(stored.clone()) }));

    assert_eq!(
        groups.create_customer_group(&group("G", None)),
        Ok(CreateCustomerGroupReply { success: true })
    );
    let request = AddCustomerRequest { customer: created.id.clone(), group: s("G") };
    assert_eq!(groups.add_customer(&request), Ok(AddCustomerReply { success: true }));
    assert_eq!(groups.add_customer(&request), Ok(AddCustomerReply { success: true }));
    assert_eq!(groups.list_customers("G"), Ok(vec![stored]));
    assert_eq!(
        groups.create_customer_group(&group("G", None)),
        Err(RpcError::AlreadyExists { what: s("G") })
    );
    assert_eq!(
        directory.shelf.borrow().groups.get("customer_group:G"),
        Some(&group("G", Some(vec!["00000000-0000-4000-8000-000000000001"])))
    );
}

#[test]
fn transport_in_process_knows_the_names_of_its_service_only() {
    let directory = Directory::new();
    let mut transport = CustomersLocal::to(directory.clone());
    for method in vec!["CreateCustomer", "CustomerGroups.AddCustomer", "Customers.Healthz", ""] {
        let call = Message { method: s(method), arg: vec![0x61, b'x'] };
        assert_eq!(
            transport.send(call, None),
            Err(RpcError::MethodNotHandled { service: "Customers", method: s(method) })
        );
    }
    let mut transport = CustomerGroupsLocal::to(directory.clone());
    let call = Message { method: s("Customers.FindCustomer"), arg: vec![0x61, b'x'] };
    assert_eq!(
        transport.send(call, Some(5)),
        Err(RpcError::MethodNotHandled { service: "CustomerGroups", method: s("Customers.FindCustomer") })
    );
    assert_eq!(directory.shelf.borrow().writes, 0);
}

#[test]
fn transport_in_process_brings_back_the_bytes_of_the_answer() {
    let directory = Directory::new();
    let mut transport = CustomersLocal::to(directory.clone());
    let call = Message { method: s("Customers.FindCustomer"), arg: vec![0x61, b'x'] };
    let mut expected = vec![0xa1, 0x68];
    expected.extend_from_slice(b"customer");
    expected.push(0xf6);
    assert_eq!(transport.send(call, None), Ok(expected));
    // A payload that is no request comes back as the receiver's failure.
    let call = Message { method: s("Customers.FindCustomer"), arg: vec![0xf5] };
    assert_eq!(
        transport.send(call, None),
        Err(RpcError::Deserialization {
            struct_name: "String",
            source: DecodeError::TypeMismatch {
                expected: shared_bucket::WireKind::Text,
                found: shared_bucket::WireKind::Flag,
            },
        })
    );
    let handler = transport.into_handler();
    assert_eq!(handler.shelf.borrow().writes, 0);
}
