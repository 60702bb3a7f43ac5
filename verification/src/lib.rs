//! Typed messages for the shared-bucket services, the codec that carries
//! them, and the decisions of the customer directory.

pub mod cbor;
pub mod codec;
pub mod coder;
pub mod customer_groups;
pub mod customers;
pub mod directory;
pub mod error;
pub mod gateway;
pub mod grammar;
pub mod laws;
pub mod message;
pub mod model;
pub mod registry;
pub mod scan;
pub mod schema;
pub mod service_vendors;
pub mod wire;
pub mod wire_laws;

pub use crate::codec::add_customer_reply::{decode_add_customer_reply, encode_add_customer_reply};
pub use crate::codec::add_customer_request::{
    decode_add_customer_request, encode_add_customer_request,
};
pub use crate::codec::create_customer_group_reply::{
    decode_create_customer_group_reply, encode_create_customer_group_reply,
};
pub use crate::codec::create_customer_reply::{
    decode_create_customer_reply, encode_create_customer_reply,
};
pub use crate::codec::customer::{decode_customer, encode_customer};
pub use crate::codec::customer_group::{decode_customer_group, encode_customer_group};
pub use crate::codec::customer_list::{decode_customer_list, encode_customer_list};
pub use crate::codec::find_customer_reply::{
    decode_find_customer_reply, encode_find_customer_reply,
};
pub use crate::codec::service::{decode_service, encode_service};
pub use crate::codec::service_order::{decode_service_order, encode_service_order};
pub use crate::codec::service_usage::{decode_service_usage, encode_service_usage};
pub use crate::coder::{Decoder, Encoder};
pub use crate::customer_groups::{
    CustomerGroups, CustomerGroupsLocal, CustomerGroupsReceiver, CustomerGroupsSender,
};
pub use crate::customers::{Customers, CustomersLocal, CustomersReceiver, CustomersSender};
pub use crate::error::{DecodeError, EncodeError, RpcError, WireKind};
pub use crate::message::{Message, Transport};
pub use crate::model::{
    AddCustomerReply, AddCustomerRequest, CreateCustomerGroupReply, CreateCustomerReply, Customer,
    CustomerGroup, FindCustomerReply, Service, ServiceOrder, ServiceUsage,
};
pub use crate::schema::Layout;
pub use crate::service_vendors::{
    ServiceVendors, ServiceVendorsLocal, ServiceVendorsReceiver, ServiceVendorsSender,
};
