//! The decisions of a gateway that turns requests by path into calls of
//! the services.
//!
//! The gateway splits the path at each slash and hands the segments over.
//! What stands here says which operation a request means and what status
//! answers the outcome of the call.

use vstd::prelude::*;
use crate::cbor::same_text;
use crate::model::{
    AddCustomerReply, CreateCustomerGroupReply, CreateCustomerReply, FindCustomerReply,
};

verus! {

/// The call that a request means.
#[derive(Debug, PartialEq, Eq)]
pub enum Route {
    CreateCustomer,
    FindCustomer { id: String },
    CreateCustomerGroup,
    ListCustomers { group: String },
    AddCustomer { group: String, customer: String },
    NotFound,
}

/// The call that a request means, with its texts as characters.
pub enum RouteView {
    CreateCustomer,
    FindCustomer { id: Seq<char> },
    CreateCustomerGroup,
    ListCustomers { group: Seq<char> },
    AddCustomer { group: Seq<char>, customer: Seq<char> },
    NotFound,
}

impl View for Route {
    type V = RouteView;

    open spec fn view(&self) -> RouteView {
        match self {
            Route::CreateCustomer => RouteView::CreateCustomer,
            Route::FindCustomer { id } => RouteView::FindCustomer { id: id@ },
            Route::CreateCustomerGroup => RouteView::CreateCustomerGroup,
            Route::ListCustomers { group } => RouteView::ListCustomers { group: group@ },
            Route::AddCustomer { group, customer } => RouteView::AddCustomer {
                group: group@,
                customer: customer@,
            },
            Route::NotFound => RouteView::NotFound,
        }
    }
}

/// The call that the request with this method and these path segments
/// means:
///
/// - `POST customers` registers a customer,
/// - `GET customers/<id>` looks a customer up,
/// - `POST customer-groups` creates a group,
/// - `GET customer-groups/<name>/customers` lists a group's customers,
/// - `POST customer-groups/<name>/customers/<id>` adds a customer to a group.
pub open spec fn routed(method: Seq<char>, segments: Seq<Seq<char>>) -> RouteView {
    if method == "POST"@ && segments.len() == 1 && segments[0] == "customers"@ {
        RouteView::CreateCustomer
    } else if method == "GET"@ && segments.len() == 2 && segments[0] == "customers"@ {
        RouteView::FindCustomer { id: segments[1] }
    } else if method == "POST"@ && segments.len() == 1 && segments[0] == "customer-groups"@ {
        RouteView::CreateCustomerGroup
    } else if method == "GET"@ && segments.len() == 3 && segments[0] == "customer-groups"@
        && segments[2] == "customers"@ {
        RouteView::ListCustomers { group: segments[1] }
    } else if method == "POST"@ && segments.len() == 4 && segments[0] == "customer-groups"@
        && segments[2] == "customers"@ {
        RouteView::AddCustomer { group: segments[1], customer: segments[3] }
    } else {
        RouteView::NotFound
    }
}

/// Says which call a request means.
pub fn route(method: &str, segments: Vec<String>) -> (r: Route)
    ensures
        r@ == routed(method@, segments.deep_view()),
{
    let ghost all = segments.deep_view();
    let mut rest = segments;
    let count: usize = rest.len();
    let post = same_text(method, "POST");
    let get = same_text(method, "GET");
    proof {
        reveal_strlit("POST");
        reveal_strlit("GET");
        reveal_strlit("customers");
        reveal_strlit("customer-groups");
        assert forall|k: int| 0 <= k < all.len() implies all[k] == rest@[k]@ by {}
    }
    if count == 0 || count > 4 || !(post || get) {
        return Route::NotFound;
    }
    let customers = same_text(rest[0].as_str(), "customers");
    let groups = same_text(rest[0].as_str(), "customer-groups");
    if count == 1 {
        if post && customers {
            Route::CreateCustomer
        } else if post && groups {
            Route::CreateCustomerGroup
        } else {
            Route::NotFound
        }
    } else if count == 2 {
        if get && customers {
            match rest.pop() {
                Some(id) => Route::FindCustomer { id },
                None => Route::NotFound,
            }
        } else {
            Route::NotFound
        }
    } else if count == 3 {
        if get && groups && same_text(rest[2].as_str(), "customers") {
            let _ = rest.pop();
            match rest.pop() {
                Some(group) => Route::ListCustomers { group },
                None => Route::NotFound,
            }
        } else {
            Route::NotFound
        }
    } else {
        if post && groups && same_text(rest[2].as_str(), "customers") {
            let last = rest.pop();
            let _ = rest.pop();
            match (rest.pop(), last) {
                (Some(group), Some(customer)) => Route::AddCustomer { group, customer },
                _ => Route::NotFound,
            }
        } else {
            Route::NotFound
        }
    }
}

/// How a request ends.
#[derive(Clone, Copy, Debug, PartialEq, Eq)]
pub enum Status {
    /// The reply goes out as it is.
    Done,
    /// There is no such thing.
    NotFound,
    /// The service could not do what was asked; the text says what.
    Failed(&'static str),
}

/// A registration ends well if the service says so.
pub fn create_customer_status(reply: &CreateCustomerReply) -> (status: Status)
    ensures
        status == if reply.success {
            Status::Done
        } else {
            Status::Failed("Failed to create customer")
        },
{
    if reply.success {
        Status::Done
    } else {
        Status::Failed("Failed to create customer")
    }
}

/// A lookup ends well if a customer was found.
pub fn find_customer_status(reply: &FindCustomerReply) -> (status: Status)
    ensures
        status == if reply.customer is Some {
            Status::Done
        } else {
            Status::NotFound
        },
{
    match reply.customer {
        Some(_) => Status::Done,
        None => Status::NotFound,
    }
}

/// The creation of a group ends well if the service says so.
pub fn create_customer_group_status(reply: &CreateCustomerGroupReply) -> (status: Status)
    ensures
        status == if reply.success {
            Status::Done
        } else {
            Status::Failed("Failed to create customer")
        },
{
    if reply.success {
        Status::Done
    } else {
        Status::Failed("Failed to create customer")
    }
}

/// The joining of a group ends well if the service says so.
pub fn add_customer_status(reply: &AddCustomerReply) -> (status: Status)
    ensures
        status == if reply.success {
            Status::Done
        } else {
            Status::Failed("Error adding customer to group")
        },
{
    if reply.success {
        Status::Done
    } else {
        Status::Failed("Error adding customer to group")
    }
}

} // verus!
