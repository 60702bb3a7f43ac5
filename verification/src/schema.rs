//! The structs that travel over the wire, described field by field.
//!
//! A field's place in `fields` is its wire position. The order never
//! changes, and a new field is added at the end and is optional.

use vstd::prelude::*;

verus! {

/// The structs of the wire format.
#[derive(Clone, Copy, Debug, PartialEq, Eq, Structural)]
pub enum Schema {
    CreateCustomerReply,
    Customer,
    FindCustomerReply,
    Service,
    ServiceOrder,
    ServiceUsage,
    CustomerGroup,
    AddCustomerRequest,
    AddCustomerReply,
    CreateCustomerGroupReply,
}

/// The two layouts of a struct: fields by position, or fields by name.
#[derive(Clone, Copy, Debug, PartialEq, Eq, Structural)]
pub enum Layout {
    Array,
    Mapping,
}

/// What a field holds.
pub enum FieldType {
    Text,
    Flag,
    TextList,
    Record(Schema),
}

/// One field of a struct.
pub struct FieldDef {
    /// The name under which the field travels in the layout by name.
    pub key: &'static str,
    /// The name by which an error speaks of the field.
    pub name: &'static str,
    pub ty: FieldType,
    /// Whether the struct can do without the field.
    pub optional: bool,
}

/// A field's value as the wire format sees it.
pub enum Value {
    Absent,
    Text(Seq<char>),
    Flag(bool),
    TextList(Seq<Seq<char>>),
    Record(Seq<Value>),
}

pub open spec fn required(key: &'static str, name: &'static str, ty: FieldType) -> FieldDef {
    FieldDef { key, name, ty, optional: false }
}

pub open spec fn optional(key: &'static str, name: &'static str, ty: FieldType) -> FieldDef {
    FieldDef { key, name, ty, optional: true }
}

impl Schema {
    /// The name by which an error speaks of the struct.
    pub open spec fn name(self) -> &'static str {
        match self {
            Schema::CreateCustomerReply => "CreateCustomerReply",
            Schema::Customer => "Customer",
            Schema::FindCustomerReply => "FindCustomerReply",
            Schema::Service => "Service",
            Schema::ServiceOrder => "ServiceOrder",
            Schema::ServiceUsage => "ServiceUsage",
            Schema::CustomerGroup => "CustomerGroup",
            Schema::AddCustomerRequest => "AddCustomerRequest",
            Schema::AddCustomerReply => "AddCustomerReply",
            Schema::CreateCustomerGroupReply => "CreateCustomerGroupReply",
        }
    }

    /// The name by which an error speaks of the struct.
    pub fn struct_name(self) -> (r: &'static str)
        ensures
            r == self.name(),
    {
        match self {
            Schema::CreateCustomerReply => "CreateCustomerReply",
            Schema::Customer => "Customer",
            Schema::FindCustomerReply => "FindCustomerReply",
            Schema::Service => "Service",
            Schema::ServiceOrder => "ServiceOrder",
            Schema::ServiceUsage => "ServiceUsage",
            Schema::CustomerGroup => "CustomerGroup",
            Schema::AddCustomerRequest => "AddCustomerRequest",
            Schema::AddCustomerReply => "AddCustomerReply",
            Schema::CreateCustomerGroupReply => "CreateCustomerGroupReply",
        }
    }

    /// The fields in wire order.
    pub open spec fn fields(self) -> Seq<FieldDef> {
        match self {
            Schema::CreateCustomerReply => seq![
                required("id", "id", FieldType::Text),
                required("success", "success", FieldType::Flag),
            ],
            Schema::Customer => seq![
                optional("address", "address", FieldType::Text),
                optional("city", "city", FieldType::Text),
                required("email", "email", FieldType::Text),
                required("firstName", "first_name", FieldType::Text),
                optional("id", "id", FieldType::Text),
                optional("lastName", "last_name", FieldType::Text),
                optional("telephone", "telephone", FieldType::Text),
            ],
            Schema::FindCustomerReply => seq![
                optional("customer", "customer", FieldType::Record(Schema::Customer)),
            ],
            Schema::Service => seq![required("id", "id", FieldType::Text)],
            Schema::ServiceOrder => seq![
                required("amount", "amount", FieldType::Text),
                required("service", "service", FieldType::Record(Schema::Service)),
            ],
            Schema::ServiceUsage => seq![
                required("client", "client", FieldType::Text),
                required("service", "service", FieldType::Record(Schema::Service)),
            ],
            Schema::CustomerGroup => seq![
                optional("members", "members", FieldType::TextList),
                required("name", "name", FieldType::Text),
            ],
            Schema::AddCustomerRequest => seq![
                required("customer", "customer", FieldType::Text),
                required("group", "group", FieldType::Text),
            ],
            Schema::AddCustomerReply => seq![required("success", "success", FieldType::Flag)],
            Schema::CreateCustomerGroupReply => seq![
                required("success", "success", FieldType::Flag),
            ],
        }
    }

    /// How deep structs nest below this one.
    pub open spec fn depth(self) -> nat {
        match self {
            Schema::FindCustomerReply => 1,
            Schema::ServiceOrder => 1,
            Schema::ServiceUsage => 1,
            _ => 0,
        }
    }

    /// The struct that field `i` holds, where it holds one that nests less
    /// deep than this struct.
    pub open spec fn nested(self, i: int) -> Option<Schema> {
        if 0 <= i < self.fields().len() {
            match self.fields()[i].ty {
                FieldType::Record(inner) => if inner.depth() < self.depth() {
                    Some(inner)
                } else {
                    None
                },
                _ => None,
            }
        } else {
            None
        }
    }

    /// The wire position of the field that travels under `key`.
    pub open spec fn position_of(self, key: Seq<char>) -> Option<int> {
        position_from(self.fields(), key, 0)
    }
}

/// The first position from `i` on whose field travels under `key`.
pub open spec fn position_from(fields: Seq<FieldDef>, key: Seq<char>, i: int) -> Option<int>
    decreases fields.len() - i,
{
    if i < 0 || i >= fields.len() {
        None
    } else if fields[i].key@ == key {
        Some(i)
    } else {
        position_from(fields, key, i + 1)
    }
}

} // verus!
