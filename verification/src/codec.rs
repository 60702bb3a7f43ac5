//! The schema types on the wire: one writer and one reader for each.

pub mod add_customer_reply;
pub mod add_customer_request;
pub mod create_customer_group_reply;
pub mod create_customer_reply;
pub mod customer;
pub mod customer_group;
pub mod customer_list;
pub mod find_customer_reply;
pub mod service;
pub mod service_order;
pub mod service_usage;
