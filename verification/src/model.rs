//! The values that the services exchange.
//!
//! Each struct has a view, which holds its texts as sequences of
//! characters, and its values, which are its fields as the wire format
//! sees them.

use vstd::prelude::*;
use crate::coder::{text_list_slot, text_slot};
use crate::laws::{confirm_texts, lemma_values_fit_intro, texts_fit, value_fits, values_fit};
use crate::schema::{Schema, Value};
use crate::wire_laws::{confirm_text, text_fits};

verus! {

/// A registered customer. The identifier is absent until the customer is
/// stored.
#[derive(Clone, Debug, PartialEq, Eq)]
pub struct Customer {
    pub address: Option<String>,
    pub city: Option<String>,
    pub email: String,
    pub first_name: String,
    pub id: Option<String>,
    pub last_name: Option<String>,
    pub telephone: Option<String>,
}

/// What a `Customer` holds.
pub struct CustomerView {
    pub address: Option<Seq<char>>,
    pub city: Option<Seq<char>>,
    pub email: Seq<char>,
    pub first_name: Seq<char>,
    pub id: Option<Seq<char>>,
    pub last_name: Option<Seq<char>>,
    pub telephone: Option<Seq<char>>,
}

impl View for Customer {
    type V = CustomerView;

    open spec fn view(&self) -> CustomerView {
        CustomerView {
            address: match self.address {
                Some(x) => Some(x@),
                None => None,
            },
            city: match self.city {
                Some(x) => Some(x@),
                None => None,
            },
            email: self.email@,
            first_name: self.first_name@,
            id: match self.id {
                Some(x) => Some(x@),
                None => None,
            },
            last_name: match self.last_name {
                Some(x) => Some(x@),
                None => None,
            },
            telephone: match self.telephone {
                Some(x) => Some(x@),
                None => None,
            },
        }
    }
}

impl Default for Customer {
    /// The struct with empty texts, flags that are not set, and nothing
    /// else.
    fn default() -> (r: Customer)
        ensures
            r.address is None,
            r.city is None,
            r.email@ == Seq::<char>::empty(),
            r.first_name@ == Seq::<char>::empty(),
            r.id is None,
            r.last_name is None,
            r.telephone is None,
    {
        Customer {
            address: None,
            city: None,
            email: String::new(),
            first_name: String::new(),
            id: None,
            last_name: None,
            telephone: None,
        }
    }
}

impl Customer {
    /// The fields in wire order.
    pub open spec fn values(&self) -> Seq<Value> {
        seq![
            text_slot(self.address),
            text_slot(self.city),
            Value::Text(self.email@),
            Value::Text(self.first_name@),
            text_slot(self.id),
            text_slot(self.last_name),
            text_slot(self.telephone),
        ]
    }

    /// Whether every text and every list is short enough to travel.
    pub open spec fn fits(&self) -> bool {
        &&& (self.address matches Some(s) ==> text_fits(s@))
        &&& (self.city matches Some(s) ==> text_fits(s@))
        &&& text_fits(self.email@)
        &&& text_fits(self.first_name@)
        &&& (self.id matches Some(s) ==> text_fits(s@))
        &&& (self.last_name matches Some(s) ==> text_fits(s@))
        &&& (self.telephone matches Some(s) ==> text_fits(s@))
    }

    /// Confirms that the struct fits. Its texts lie in memory, so the
    /// length of each is a number that the head of an item can hold.
    pub fn confirm(&self)
        ensures
            self.fits(),
    {
        match &self.address {
            Some(x) => {
                confirm_text(x.as_str());
            },
            None => {},
        }
        match &self.city {
            Some(x) => {
                confirm_text(x.as_str());
            },
            None => {},
        }
        confirm_text(self.email.as_str());
        confirm_text(self.first_name.as_str());
        match &self.id {
            Some(x) => {
                confirm_text(x.as_str());
            },
            None => {},
        }
        match &self.last_name {
            Some(x) => {
                confirm_text(x.as_str());
            },
            None => {},
        }
        match &self.telephone {
            Some(x) => {
                confirm_text(x.as_str());
            },
            None => {},
        }
    }

    /// The values of a struct that fits can be the fields of its schema.
    pub proof fn lemma_values_fit(&self)
        requires
            self.fits(),
        ensures
            values_fit(Schema::Customer, self.values()),
    {
        assert(value_fits(Schema::Customer, 0, self.values()[0]));
        assert(value_fits(Schema::Customer, 1, self.values()[1]));
        assert(value_fits(Schema::Customer, 2, self.values()[2]));
        assert(value_fits(Schema::Customer, 3, self.values()[3]));
        assert(value_fits(Schema::Customer, 4, self.values()[4]));
        assert(value_fits(Schema::Customer, 5, self.values()[5]));
        assert(value_fits(Schema::Customer, 6, self.values()[6]));
        lemma_values_fit_intro(Schema::Customer, self.values());
    }

    /// Structs with the same values have the same view.
    pub proof fn lemma_same_values(&self, other: &Customer)
        requires
            self.values() == other.values(),
        ensures
            self@ == other@,
    {
        assert(self.values()[0] == other.values()[0]);
        assert(self.values()[0] == text_slot(self.address));
        assert(self.values()[1] == other.values()[1]);
        assert(self.values()[1] == text_slot(self.city));
        assert(self.values()[2] == other.values()[2]);
        assert(self.values()[2] == Value::Text(self.email@));
        assert(self.values()[3] == other.values()[3]);
        assert(self.values()[3] == Value::Text(self.first_name@));
        assert(self.values()[4] == other.values()[4]);
        assert(self.values()[4] == text_slot(self.id));
        assert(self.values()[5] == other.values()[5]);
        assert(self.values()[5] == text_slot(self.last_name));
        assert(self.values()[6] == other.values()[6]);
        assert(self.values()[6] == text_slot(self.telephone));
    }
}

/// The value of a field that may hold a `Customer`.
pub open spec fn customer_slot(x: Option<Customer>) -> Value {
    match x {
        Some(inner) => Value::Record(inner.values()),
        None => Value::Absent,
    }
}

/// What the service answers to a request to register a customer.
#[derive(Clone, Debug, PartialEq, Eq)]
pub struct CreateCustomerReply {
    pub id: String,
    pub success: bool,
}

/// What a `CreateCustomerReply` holds.
pub struct CreateCustomerReplyView {
    pub id: Seq<char>,
    pub success: bool,
}

impl View for CreateCustomerReply {
    type V = CreateCustomerReplyView;

    open spec fn view(&self) -> CreateCustomerReplyView {
        CreateCustomerReplyView {
            id: self.id@,
            success: self.success,
        }
    }
}

impl Default for CreateCustomerReply {
    /// The struct with empty texts, flags that are not set, and nothing
    /// else.
    fn default() -> (r: CreateCustomerReply)
        ensures
            r.id@ == Seq::<char>::empty(),
            !r.success,
    {
        CreateCustomerReply {
            id: String::new(),
            success: false,
        }
    }
}

impl CreateCustomerReply {
    /// The fields in wire order.
    pub open spec fn values(&self) -> Seq<Value> {
        seq![
            Value::Text(self.id@),
            Value::Flag(self.success),
        ]
    }

    /// Whether every text and every list is short enough to travel.
    pub open spec fn fits(&self) -> bool {
        &&& text_fits(self.id@)
    }

    /// Confirms that the struct fits. Its texts lie in memory, so the
    /// length of each is a number that the head of an item can hold.
    pub fn confirm(&self)
        ensures
            self.fits(),
    {
        confirm_text(self.id.as_str());
    }

    /// The values of a struct that fits can be the fields of its schema.
    pub proof fn lemma_values_fit(&self)
        requires
            self.fits(),
        ensures
            values_fit(Schema::CreateCustomerReply, self.values()),
    {
        assert(value_fits(Schema::CreateCustomerReply, 0, self.values()[0]));
        assert(value_fits(Schema::CreateCustomerReply, 1, self.values()[1]));
        lemma_values_fit_intro(Schema::CreateCustomerReply, self.values());
    }

    /// Structs with the same values have the same view.
    pub proof fn lemma_same_values(&self, other: &CreateCustomerReply)
        requires
            self.values() == other.values(),
        ensures
            self@ == other@,
    {
        assert(self.values()[0] == other.values()[0]);
        assert(self.values()[0] == Value::Text(self.id@));
        assert(self.values()[1] == other.values()[1]);
        assert(self.values()[1] == Value::Flag(self.success));
    }
}

/// What the service answers to a lookup by identifier.
#[derive(Clone, Debug, PartialEq, Eq)]
pub struct FindCustomerReply {
    pub customer: Option<Customer>,
}

/// What a `FindCustomerReply` holds.
pub struct FindCustomerReplyView {
    pub customer: Option<CustomerView>,
}

impl View for FindCustomerReply {
    type V = FindCustomerReplyView;

    open spec fn view(&self) -> FindCustomerReplyView {
        FindCustomerReplyView {
            customer: match self.customer {
                Some(x) => Some(x@),
                None => None,
            },
        }
    }
}

impl Default for FindCustomerReply {
    /// The struct with empty texts, flags that are not set, and nothing
    /// else.
    fn default() -> (r: FindCustomerReply)
        ensures
            r.customer is None,
    {
        FindCustomerReply {
            customer: None,
        }
    }
}

impl FindCustomerReply {
    /// The fields in wire order.
    pub open spec fn values(&self) -> Seq<Value> {
        seq![customer_slot(self.customer)]
    }

    /// Whether every text and every list is short enough to travel.
    pub open spec fn fits(&self) -> bool {
        &&& (self.customer matches Some(inner) ==> inner.fits())
    }

    /// Confirms that the struct fits. Its texts lie in memory, so the
    /// length of each is a number that the head of an item can hold.
    pub fn confirm(&self)
        ensures
            self.fits(),
    {
        match &self.customer {
            Some(x) => {
                x.confirm();
            },
            None => {},
        }
    }

    /// The values of a struct that fits can be the fields of its schema.
    pub proof fn lemma_values_fit(&self)
        requires
            self.fits(),
        ensures
            values_fit(Schema::FindCustomerReply, self.values()),
    {
        if let Some(inner) = self.customer {
            inner.lemma_values_fit();
        }
        assert(value_fits(Schema::FindCustomerReply, 0, self.values()[0]));
        lemma_values_fit_intro(Schema::FindCustomerReply, self.values());
    }

    /// Structs with the same values have the same view.
    pub proof fn lemma_same_values(&self, other: &FindCustomerReply)
        requires
            self.values() == other.values(),
        ensures
            self@ == other@,
    {
        assert(self.values()[0] == other.values()[0]);
        assert(self.values()[0] == customer_slot(self.customer));
        if let Some(inner) = self.customer {
            inner.lemma_same_values(&other.customer->0);
        }
    }
}

/// A service that a vendor offers.
#[derive(Clone, Debug, PartialEq, Eq)]
pub struct Service {
    pub id: String,
}

/// What a `Service` holds.
pub struct ServiceView {
    pub id: Seq<char>,
}

impl View for Service {
    type V = ServiceView;

    open spec fn view(&self) -> ServiceView {
        ServiceView {
            id: self.id@,
        }
    }
}

impl Default for Service {
    /// The struct with empty texts, flags that are not set, and nothing
    /// else.
    fn default() -> (r: Service)
        ensures
            r.id@ == Seq::<char>::empty(),
    {
        Service {
            id: String::new(),
        }
    }
}

impl Service {
    /// The fields in wire order.
    pub open spec fn values(&self) -> Seq<Value> {
        seq![Value::Text(self.id@)]
    }

    /// Whether every text and every list is short enough to travel.
    pub open spec fn fits(&self) -> bool {
        &&& text_fits(self.id@)
    }

    /// Confirms that the struct fits. Its texts lie in memory, so the
    /// length of each is a number that the head of an item can hold.
    pub fn confirm(&self)
        ensures
            self.fits(),
    {
        confirm_text(self.id.as_str());
    }

    /// The values of a struct that fits can be the fields of its schema.
    pub proof fn lemma_values_fit(&self)
        requires
            self.fits(),
        ensures
            values_fit(Schema::Service, self.values()),
    {
        assert(value_fits(Schema::Service, 0, self.values()[0]));
        lemma_values_fit_intro(Schema::Service, self.values());
    }

    /// Structs with the same values have the same view.
    pub proof fn lemma_same_values(&self, other: &Service)
        requires
            self.values() == other.values(),
        ensures
            self@ == other@,
    {
        assert(self.values()[0] == other.values()[0]);
        assert(self.values()[0] == Value::Text(self.id@));
    }
}

/// The value of a field that may hold a `Service`.
pub open spec fn service_slot(x: Option<Service>) -> Value {
    match x {
        Some(inner) => Value::Record(inner.values()),
        None => Value::Absent,
    }
}

/// An order for a service.
#[derive(Clone, Debug, PartialEq, Eq)]
pub struct ServiceOrder {
    pub amount: String,
    pub service: Service,
}

/// What a `ServiceOrder` holds.
pub struct ServiceOrderView {
    pub amount: Seq<char>,
    pub service: ServiceView,
}

impl View for ServiceOrder {
    type V = ServiceOrderView;

    open spec fn view(&self) -> ServiceOrderView {
        ServiceOrderView {
            amount: self.amount@,
            service: self.service@,
        }
    }
}

impl Default for ServiceOrder {
    /// The struct with empty texts, flags that are not set, and nothing
    /// else.
    fn default() -> (r: ServiceOrder)
        ensures
            r.amount@ == Seq::<char>::empty(),
            r.service.id@ == Seq::<char>::empty(),
    {
        ServiceOrder {
            amount: String::new(),
            service: Service::default(),
        }
    }
}

impl ServiceOrder {
    /// The fields in wire order.
    pub open spec fn values(&self) -> Seq<Value> {
        seq![
            Value::Text(self.amount@),
            Value::Record(self.service.values()),
        ]
    }

    /// Whether every text and every list is short enough to travel.
    pub open spec fn fits(&self) -> bool {
        &&& text_fits(self.amount@)
        &&& self.service.fits()
    }

    /// Confirms that the struct fits. Its texts lie in memory, so the
    /// length of each is a number that the head of an item can hold.
    pub fn confirm(&self)
        ensures
            self.fits(),
    {
        confirm_text(self.amount.as_str());
        self.service.confirm();
    }

    /// The values of a struct that fits can be the fields of its schema.
    pub proof fn lemma_values_fit(&self)
        requires
            self.fits(),
        ensures
            values_fit(Schema::ServiceOrder, self.values()),
    {
        self.service.lemma_values_fit();
        assert(value_fits(Schema::ServiceOrder, 0, self.values()[0]));
        assert(value_fits(Schema::ServiceOrder, 1, self.values()[1]));
        lemma_values_fit_intro(Schema::ServiceOrder, self.values());
    }

    /// Structs with the same values have the same view.
    pub proof fn lemma_same_values(&self, other: &ServiceOrder)
        requires
            self.values() == other.values(),
        ensures
            self@ == other@,
    {
        assert(self.values()[0] == other.values()[0]);
        assert(self.values()[0] == Value::Text(self.amount@));
        assert(self.values()[1] == other.values()[1]);
        assert(self.values()[1] == Value::Record(self.service.values()));
        self.service.lemma_same_values(&other.service);
    }
}

/// A client's use of a service.
#[derive(Clone, Debug, PartialEq, Eq)]
pub struct ServiceUsage {
    pub client: String,
    pub service: Service,
}

/// What a `ServiceUsage` holds.
pub struct ServiceUsageView {
    pub client: Seq<char>,
    pub service: ServiceView,
}

impl View for ServiceUsage {
    type V = ServiceUsageView;

    open spec fn view(&self) -> ServiceUsageView {
        ServiceUsageView {
            client: self.client@,
            service: self.service@,
        }
    }
}

impl Default for ServiceUsage {
    /// The struct with empty texts, flags that are not set, and nothing
    /// else.
    fn default() -> (r: ServiceUsage)
        ensures
            r.client@ == Seq::<char>::empty(),
            r.service.id@ == Seq::<char>::empty(),
    {
        ServiceUsage {
            client: String::new(),
            service: Service::default(),
        }
    }
}

impl ServiceUsage {
    /// The fields in wire order.
    pub open spec fn values(&self) -> Seq<Value> {
        seq![
            Value::Text(self.client@),
            Value::Record(self.service.values()),
        ]
    }

    /// Whether every text and every list is short enough to travel.
    pub open spec fn fits(&self) -> bool {
        &&& text_fits(self.client@)
        &&& self.service.fits()
    }

    /// Confirms that the struct fits. Its texts lie in memory, so the
    /// length of each is a number that the head of an item can hold.
    pub fn confirm(&self)
        ensures
            self.fits(),
    {
        confirm_text(self.client.as_str());
        self.service.confirm();
    }

    /// The values of a struct that fits can be the fields of its schema.
    pub proof fn lemma_values_fit(&self)
        requires
            self.fits(),
        ensures
            values_fit(Schema::ServiceUsage, self.values()),
    {
        self.service.lemma_values_fit();
        assert(value_fits(Schema::ServiceUsage, 0, self.values()[0]));
        assert(value_fits(Schema::ServiceUsage, 1, self.values()[1]));
        lemma_values_fit_intro(Schema::ServiceUsage, self.values());
    }

    /// Structs with the same values have the same view.
    pub proof fn lemma_same_values(&self, other: &ServiceUsage)
        requires
            self.values() == other.values(),
        ensures
            self@ == other@,
    {
        assert(self.values()[0] == other.values()[0]);
        assert(self.values()[0] == Value::Text(self.client@));
        assert(self.values()[1] == other.values()[1]);
        assert(self.values()[1] == Value::Record(self.service.values()));
        self.service.lemma_same_values(&other.service);
    }
}

/// A named group of customers. The name identifies the group. The members
/// are customer identifiers in the order in which they joined, each once.
#[derive(Clone, Debug, PartialEq, Eq)]
pub struct CustomerGroup {
    pub members: Option<Vec<String>>,
    pub name: String,
}

/// What a `CustomerGroup` holds.
pub struct CustomerGroupView {
    pub members: Option<Seq<Seq<char>>>,
    pub name: Seq<char>,
}

impl View for CustomerGroup {
    type V = CustomerGroupView;

    open spec fn view(&self) -> CustomerGroupView {
        CustomerGroupView {
            members: match self.members {
                Some(x) => Some(x.deep_view()),
                None => None,
            },
            name: self.name@,
        }
    }
}

impl Default for CustomerGroup {
    /// The struct with empty texts, flags that are not set, and nothing
    /// else.
    fn default() -> (r: CustomerGroup)
        ensures
            r.members is None,
            r.name@ == Seq::<char>::empty(),
    {
        CustomerGroup {
            members: None,
            name: String::new(),
        }
    }
}

impl CustomerGroup {
    /// The fields in wire order.
    pub open spec fn values(&self) -> Seq<Value> {
        seq![
            text_list_slot(self.members),
            Value::Text(self.name@),
        ]
    }

    /// Whether every text and every list is short enough to travel.
    pub open spec fn fits(&self) -> bool {
        &&& (self.members matches Some(items) ==> texts_fit(items.deep_view()))
        &&& text_fits(self.name@)
    }

    /// Confirms that the struct fits. Its texts lie in memory, so the
    /// length of each is a number that the head of an item can hold.
    pub fn confirm(&self)
        ensures
            self.fits(),
    {
        match &self.members {
            Some(x) => {
                confirm_texts(x);
            },
            None => {},
        }
        confirm_text(self.name.as_str());
    }

    /// The values of a struct that fits can be the fields of its schema.
    pub proof fn lemma_values_fit(&self)
        requires
            self.fits(),
        ensures
            values_fit(Schema::CustomerGroup, self.values()),
    {
        assert(value_fits(Schema::CustomerGroup, 0, self.values()[0]));
        assert(value_fits(Schema::CustomerGroup, 1, self.values()[1]));
        lemma_values_fit_intro(Schema::CustomerGroup, self.values());
    }

    /// Structs with the same values have the same view.
    pub proof fn lemma_same_values(&self, other: &CustomerGroup)
        requires
            self.values() == other.values(),
        ensures
            self@ == other@,
    {
        assert(self.values()[0] == other.values()[0]);
        assert(self.values()[0] == text_list_slot(self.members));
        assert(self@.members =~~= other@.members);
        assert(self.values()[1] == other.values()[1]);
        assert(self.values()[1] == Value::Text(self.name@));
    }
}

/// A request to add a customer to a group.
#[derive(Clone, Debug, PartialEq, Eq)]
pub struct AddCustomerRequest {
    pub customer: String,
    pub group: String,
}

/// What an `AddCustomerRequest` holds.
pub struct AddCustomerRequestView {
    pub customer: Seq<char>,
    pub group: Seq<char>,
}

impl View for AddCustomerRequest {
    type V = AddCustomerRequestView;

    open spec fn view(&self) -> AddCustomerRequestView {
        AddCustomerRequestView {
            customer: self.customer@,
            group: self.group@,
        }
    }
}

impl Default for AddCustomerRequest {
    /// The struct with empty texts, flags that are not set, and nothing
    /// else.
    fn default() -> (r: AddCustomerRequest)
        ensures
            r.customer@ == Seq::<char>::empty(),
            r.group@ == Seq::<char>::empty(),
    {
        AddCustomerRequest {
            customer: String::new(),
            group: String::new(),
        }
    }
}

impl AddCustomerRequest {
    /// The fields in wire order.
    pub open spec fn values(&self) -> Seq<Value> {
        seq![
            Value::Text(self.customer@),
            Value::Text(self.group@),
        ]
    }

    /// Whether every text and every list is short enough to travel.
    pub open spec fn fits(&self) -> bool {
        &&& text_fits(self.customer@)
        &&& text_fits(self.group@)
    }

    /// Confirms that the struct fits. Its texts lie in memory, so the
    /// length of each is a number that the head of an item can hold.
    pub fn confirm(&self)
        ensures
            self.fits(),
    {
        confirm_text(self.customer.as_str());
        confirm_text(self.group.as_str());
    }

    /// The values of a struct that fits can be the fields of its schema.
    pub proof fn lemma_values_fit(&self)
        requires
            self.fits(),
        ensures
            values_fit(Schema::AddCustomerRequest, self.values()),
    {
        assert(value_fits(Schema::AddCustomerRequest, 0, self.values()[0]));
        assert(value_fits(Schema::AddCustomerRequest, 1, self.values()[1]));
        lemma_values_fit_intro(Schema::AddCustomerRequest, self.values());
    }

    /// Structs with the same values have the same view.
    pub proof fn lemma_same_values(&self, other: &AddCustomerRequest)
        requires
            self.values() == other.values(),
        ensures
            self@ == other@,
    {
        assert(self.values()[0] == other.values()[0]);
        assert(self.values()[0] == Value::Text(self.customer@));
        assert(self.values()[1] == other.values()[1]);
        assert(self.values()[1] == Value::Text(self.group@));
    }
}

/// What the service answers to a request to add a customer to a group.
#[derive(Clone, Copy, Debug, PartialEq, Eq)]
pub struct AddCustomerReply {
    pub success: bool,
}

/// What an `AddCustomerReply` holds.
pub struct AddCustomerReplyView {
    pub success: bool,
}

impl View for AddCustomerReply {
    type V = AddCustomerReplyView;

    open spec fn view(&self) -> AddCustomerReplyView {
        AddCustomerReplyView {
            success: self.success,
        }
    }
}

impl Default for AddCustomerReply {
    /// The struct with empty texts, flags that are not set, and nothing
    /// else.
    fn default() -> (r: AddCustomerReply)
        ensures
            !r.success,
    {
        AddCustomerReply {
            success: false,
        }
    }
}

impl AddCustomerReply {
    /// The fields in wire order.
    pub open spec fn values(&self) -> Seq<Value> {
        seq![Value::Flag(self.success)]
    }

    /// Whether every text and every list is short enough to travel.
    pub open spec fn fits(&self) -> bool {
        true
    }

    /// The values of a struct that fits can be the fields of its schema.
    pub proof fn lemma_values_fit(&self)
        requires
            self.fits(),
        ensures
            values_fit(Schema::AddCustomerReply, self.values()),
    {
        assert(value_fits(Schema::AddCustomerReply, 0, self.values()[0]));
        lemma_values_fit_intro(Schema::AddCustomerReply, self.values());
    }

    /// Structs with the same values have the same view.
    pub proof fn lemma_same_values(&self, other: &AddCustomerReply)
        requires
            self.values() == other.values(),
        ensures
            self@ == other@,
    {
        assert(self.values()[0] == other.values()[0]);
        assert(self.values()[0] == Value::Flag(self.success));
    }
}

/// What the service answers to a request to create a group.
#[derive(Clone, Copy, Debug, PartialEq, Eq)]
pub struct CreateCustomerGroupReply {
    pub success: bool,
}

/// What a `CreateCustomerGroupReply` holds.
pub struct CreateCustomerGroupReplyView {
    pub success: bool,
}

impl View for CreateCustomerGroupReply {
    type V = CreateCustomerGroupReplyView;

    open spec fn view(&self) -> CreateCustomerGroupReplyView {
        CreateCustomerGroupReplyView {
            success: self.success,
        }
    }
}

impl Default for CreateCustomerGroupReply {
    /// The struct with empty texts, flags that are not set, and nothing
    /// else.
    fn default() -> (r: CreateCustomerGroupReply)
        ensures
            !r.success,
    {
        CreateCustomerGroupReply {
            success: false,
        }
    }
}

impl CreateCustomerGroupReply {
    /// The fields in wire order.
    pub open spec fn values(&self) -> Seq<Value> {
        seq![Value::Flag(self.success)]
    }

    /// Whether every text and every list is short enough to travel.
    pub open spec fn fits(&self) -> bool {
        true
    }

    /// The values of a struct that fits can be the fields of its schema.
    pub proof fn lemma_values_fit(&self)
        requires
            self.fits(),
        ensures
            values_fit(Schema::CreateCustomerGroupReply, self.values()),
    {
        assert(value_fits(Schema::CreateCustomerGroupReply, 0, self.values()[0]));
        lemma_values_fit_intro(Schema::CreateCustomerGroupReply, self.values());
    }

    /// Structs with the same values have the same view.
    pub proof fn lemma_same_values(&self, other: &CreateCustomerGroupReply)
        requires
            self.values() == other.values(),
        ensures
            self@ == other@,
    {
        assert(self.values()[0] == other.values()[0]);
        assert(self.values()[0] == Value::Flag(self.success));
    }
}

} // verus!
