//! The decisions of the customer directory.
//!
//! The directory keeps customers and groups of customers in a key-value
//! store. It holds no state of its own: every operation reads what it
//! needs, decides, and writes at most once. Reading and writing are the
//! caller's part. The functions here are the deciding: they take what the
//! store answered and say what is to be written and what to reply.
//!
//! Between the read and the write of one operation another caller may
//! write. The later write then wins, for the whole record.

use vstd::prelude::*;
use vstd::string::*;
use crate::cbor::same_text;
use crate::error::RpcError;
use crate::model::{
    AddCustomerReply, CreateCustomerGroupReply, CreateCustomerReply, Customer, CustomerGroup,
    CustomerGroupView, CustomerView, FindCustomerReply,
};

verus! {

/// What the store answered to a read.
#[derive(Debug, PartialEq, Eq)]
pub enum Lookup<T> {
    Found(T),
    Missing,
    Failed,
}

/// A write to the store. The value never expires.
#[derive(Debug, PartialEq, Eq)]
pub struct Put<T> {
    pub key: String,
    pub value: T,
    pub expires: u32,
}

// ------------------------------------------------------------------- keys

/// The key under which the customer with identifier `id` is stored.
pub open spec fn customer_key_text(id: Seq<char>) -> Seq<char> {
    "customer:"@ + id
}

/// The key under which the group called `name` is stored.
pub open spec fn group_key_text(name: Seq<char>) -> Seq<char> {
    "customer_group:"@ + name
}

/// The key under which the customer with identifier `id` is stored.
pub fn customer_key(id: &str) -> (key: String)
    ensures
        key@ == customer_key_text(id@),
{
    let mut key = String::from_str("customer:");
    key.append(id);
    key
}

/// The key under which the group called `name` is stored.
pub fn group_key(name: &str) -> (key: String)
    ensures
        key@ == group_key_text(name@),
{
    let mut key = String::from_str("customer_group:");
    key.append(name);
    key
}

/// No two customers share a key, no two groups do, and no customer shares
/// a key with a group.
pub proof fn lemma_keys_apart(a: Seq<char>, b: Seq<char>)
    ensures
        customer_key_text(a) == customer_key_text(b) ==> a == b,
        group_key_text(a) == group_key_text(b) ==> a == b,
        customer_key_text(a) != group_key_text(b),
{
    reveal_strlit("customer:");
    reveal_strlit("customer_group:");
    let c = "customer:"@;
    let g = "customer_group:"@;
    assert(customer_key_text(a).subrange(c.len() as int, customer_key_text(a).len() as int) =~= a);
    assert(customer_key_text(b).subrange(c.len() as int, customer_key_text(b).len() as int) =~= b);
    assert(group_key_text(a).subrange(g.len() as int, group_key_text(a).len() as int) =~= a);
    assert(group_key_text(b).subrange(g.len() as int, group_key_text(b).len() as int) =~= b);
    assert(customer_key_text(a)[8] == ':');
    assert(group_key_text(b)[8] == '_');
}

// -------------------------------------------------------------- customers

/// The customer as it is stored: with its identifier.
pub open spec fn stored_customer(id: Seq<char>, customer: CustomerView) -> CustomerView {
    CustomerView { id: Some(id), ..customer }
}

/// The write that stores a new customer under the identifier made for it.
pub fn plan_create_customer(id: &str, customer: Customer) -> (put: Put<Customer>)
    ensures
        put.key@ == customer_key_text(id@),
        put.value@ == stored_customer(id@, customer@),
        put.expires == 0,
{
    let mut value = customer;
    value.id = Some(id.to_owned());
    Put { key: customer_key(id), value, expires: 0 }
}

/// The reply to a request to register a customer, given the identifier
/// that was made for it, if one was made, and whether the write of the
/// customer under that identifier was made. The customer counts as stored
/// where both are so: the reply then holds the identifier. Else it holds
/// no identifier and no success, whatever the reason.
pub fn create_customer_reply(id: Option<String>, written: bool) -> (reply: CreateCustomerReply)
    ensures
        match id {
            Some(made) => if written {
                reply.id == made && reply.success
            } else {
                reply.id@ == Seq::<char>::empty() && !reply.success
            },
            None => reply.id@ == Seq::<char>::empty() && !reply.success,
        },
{
    match id {
        Some(made) => {
            if written {
                CreateCustomerReply { id: made, success: true }
            } else {
                CreateCustomerReply { id: String::new(), success: false }
            }
        },
        None => CreateCustomerReply { id: String::new(), success: false },
    }
}

/// The reply to a lookup: the customer found. A store that failed looks
/// the same as a customer that is not there.
pub fn find_customer_reply(lookup: Lookup<Customer>) -> (reply: FindCustomerReply)
    ensures
        reply.customer == match lookup {
            Lookup::Found(customer) => Some(customer),
            _ => None,
        },
{
    match lookup {
        Lookup::Found(customer) => FindCustomerReply { customer: Some(customer) },
        _ => FindCustomerReply { customer: None },
    }
}

// ----------------------------------------------------------------- groups

/// What a read of a group found, as views.
pub open spec fn lookup_view(lookup: Lookup<CustomerGroup>) -> Lookup<CustomerGroupView> {
    match lookup {
        Lookup::Found(group) => Lookup::Found(group@),
        Lookup::Missing => Lookup::Missing,
        Lookup::Failed => Lookup::Failed,
    }
}

/// A planned write, as key and view.
pub open spec fn write_view(
    put: Option<Put<CustomerGroup>>,
) -> Option<(Seq<char>, CustomerGroupView)> {
    match put {
        Some(p) => Some((p.key@, p.value@)),
        None => None,
    }
}

/// The members of a group; a group without a list has none.
pub open spec fn members_of(group: CustomerGroupView) -> Seq<Seq<char>> {
    match group.members {
        Some(members) => members,
        None => Seq::empty(),
    }
}

/// A new group as it is stored: with a list of members, empty if none was
/// given.
pub open spec fn new_group(group: CustomerGroupView) -> CustomerGroupView {
    CustomerGroupView { members: Some(members_of(group)), ..group }
}

/// The members once `customer` has joined: the customer stands at the
/// end, unless it is a member already.
pub open spec fn with_member(members: Seq<Seq<char>>, customer: Seq<char>) -> Seq<Seq<char>> {
    if members.contains(customer) {
        members
    } else {
        members.push(customer)
    }
}

/// What creating a group writes, given what the read of its key found:
/// nothing where the group exists, else the new group.
pub open spec fn create_group_write(
    existing: Lookup<CustomerGroupView>,
    group: CustomerGroupView,
) -> Option<
    (Seq<char>, CustomerGroupView),
> {
    match existing {
        Lookup::Found(_) => None,
        _ => Some((group_key_text(group.name), new_group(group))),
    }
}

/// What adding a customer to a group writes, given what the read of the
/// group found: the group with the customer at the end of its members, or
/// nothing where there is no group or the customer is a member already.
pub open spec fn add_customer_write(
    existing: Lookup<CustomerGroupView>,
    customer: Seq<char>,
) -> Option<
    (Seq<char>, CustomerGroupView),
> {
    match existing {
        Lookup::Found(group) => if members_of(group).contains(customer) {
            None
        } else {
            Some(
                (
                    group_key_text(group.name),
                    CustomerGroupView {
                        members: Some(with_member(members_of(group), customer)),
                        ..group
                    },
                ),
            )
        },
        _ => None,
    }
}

/// Decides on a request to create a group, given what the read of the
/// group's key found. A group that exists is not written again: the
/// request fails. A read that failed counts as a group that is not there.
pub fn plan_create_group(existing: Lookup<CustomerGroup>, group: CustomerGroup) -> (r: Result<
    Put<CustomerGroup>,
    RpcError,
>)
    ensures
        match existing {
            Lookup::Found(_) => r matches Err(RpcError::AlreadyExists { what }) && what@
                == group.name@,
            _ => r matches Ok(put) && put.expires == 0 && write_view(Some(put))
                == create_group_write(lookup_view(existing), group@),
        },
{
    match existing {
        Lookup::Found(_) => Err(RpcError::AlreadyExists { what: group.name }),
        _ => {
            let key = group_key(group.name.as_str());
            let members = match group.members {
                Some(members) => members,
                None => {
                    let none: Vec<String> = Vec::new();
                    assert(none.deep_view() =~= Seq::<Seq<char>>::empty());
                    none
                },
            };
            Ok(Put { key, value: CustomerGroup { members: Some(members), name: group.name }, expires: 0 })
        },
    }
}

/// The reply to a request to create a group that was not refused:
/// whether the group was written.
pub fn create_customer_group_reply(written: bool) -> (reply: CreateCustomerGroupReply)
    ensures
        reply.success == written,
{
    CreateCustomerGroupReply { success: written }
}

/// Whether `customer` is among `members`.
pub fn is_member(members: &Vec<String>, customer: &str) -> (r: bool)
    ensures
        r == members.deep_view().contains(customer@),
{
    let ghost all = members.deep_view();
    let mut i: usize = 0;
    while i < members.len()
        invariant
            i <= members.len(),
            all == members.deep_view(),
            forall|k: int| 0 <= k < i ==> all[k] != customer@,
        decreases members.len() - i,
    {
        assert(all[i as int] == members@[i as int]@);
        if same_text(members[i].as_str(), customer) {
            return true;
        }
        i += 1;
    }
    false
}

/// Decides on a request to add a customer to a group, given what the read
/// of the group found. A customer that is a member already is not added
/// again, and nothing is written.
pub fn plan_add_customer(existing: Lookup<CustomerGroup>, group_name: &str, customer: &str) -> (r:
    Result<Option<Put<CustomerGroup>>, RpcError>)
    ensures
        match existing {
            Lookup::Found(_) => r matches Ok(put) && write_view(put) == add_customer_write(
                lookup_view(existing),
                customer@,
            ) && (put matches Some(p) ==> p.expires == 0),
            Lookup::Missing => r matches Err(RpcError::NotFound { what }) && what@
                == group_name@,
            Lookup::Failed => r matches Err(RpcError::BusinessFailure { reason }) && reason@
                == group_name@,
        },
{
    match existing {
        Lookup::Found(group) => {
            let ghost before = members_of(group@);
            let name = group.name;
            let mut members = match group.members {
                Some(members) => members,
                None => {
                    let none: Vec<String> = Vec::new();
                    assert(none.deep_view() =~= Seq::<Seq<char>>::empty());
                    none
                },
            };
            if is_member(&members, customer) {
                Ok(None)
            } else {
                members.push(customer.to_owned());
                assert(members.deep_view() =~= before.push(customer@));
                let key = group_key(name.as_str());
                Ok(Some(Put { key, value: CustomerGroup { members: Some(members), name }, expires: 0 }))
            }
        },
        Lookup::Missing => Err(RpcError::NotFound { what: group_name.to_owned() }),
        Lookup::Failed => Err(RpcError::BusinessFailure { reason: group_name.to_owned() }),
    }
}

/// The reply to a request to add a customer to a group, given what became
/// of the plan: the failure that the plan ended in, or that no write was
/// needed, or whether the write that was needed was made. The customer is
/// a member where it was one already or the write was made.
pub fn add_customer_reply(outcome: Result<Option<bool>, RpcError>) -> (reply: AddCustomerReply)
    ensures
        reply.success == match outcome {
            Ok(Some(written)) => written,
            Ok(None) => true,
            Err(_) => false,
        },
{
    match outcome {
        Ok(Some(written)) => AddCustomerReply { success: written },
        Ok(None) => AddCustomerReply { success: true },
        Err(_) => AddCustomerReply { success: false },
    }
}

// ---------------------------------------------------------------- listing

/// The keys of the members' records, in the members' order.
pub open spec fn member_keys(members: Seq<Seq<char>>) -> Seq<Seq<char>> {
    Seq::new(members.len(), |i: int| customer_key_text(members[i]))
}

/// Decides on a request to list the customers of a group, given what the
/// read of the group found: the keys to read, one for each member, in the
/// members' order. Without the group the request fails.
pub fn plan_list_customers(existing: Lookup<CustomerGroup>, group_name: &str) -> (r: Result<
    Vec<String>,
    RpcError,
>)
    ensures
        match existing {
            Lookup::Found(group) => r matches Ok(keys) && keys.deep_view() == member_keys(
                members_of(group@),
            ),
            _ => r matches Err(RpcError::NotFound { what }) && what@ == group_name@,
        },
{
    match existing {
        Lookup::Found(group) => {
            let mut keys: Vec<String> = Vec::new();
            match group.members {
                Some(members) => {
                    let ghost all = members.deep_view();
                    let mut i: usize = 0;
                    while i < members.len()
                        invariant
                            i <= members.len(),
                            all == members.deep_view(),
                            keys.deep_view() == member_keys(all.take(i as int)),
                        decreases members.len() - i,
                    {
                        let ghost before = keys.deep_view();
                        assert(all[i as int] == members@[i as int]@);
                        keys.push(customer_key(members[i].as_str()));
                        assert(keys.deep_view() =~= before.push(customer_key_text(all[i as int])));
                        assert(member_keys(all.take(i + 1)) =~= member_keys(all.take(i as int)).push(
                            customer_key_text(all[i as int]),
                        ));
                        i += 1;
                    }
                    assert(all.take(members.len() as int) =~= all);
                },
                None => {
                    assert(keys.deep_view() =~= member_keys(Seq::empty()));
                },
            }
            Ok(keys)
        },
        _ => Err(RpcError::NotFound { what: group_name.to_owned() }),
    }
}

/// The customers found among what the reads of the members' records
/// answered, in the order of the reads. A read that found nothing, or
/// failed, leaves no trace.
pub open spec fn kept(lookups: Seq<Lookup<Customer>>) -> Seq<Customer>
    decreases lookups.len(),
{
    if lookups.len() == 0 {
        Seq::empty()
    } else {
        match lookups.last() {
            Lookup::Found(customer) => kept(lookups.drop_last()).push(customer),
            _ => kept(lookups.drop_last()),
        }
    }
}

/// The customers of a group, given what the read of each member's record
/// answered, in the members' order.
pub fn found_customers(lookups: Vec<Lookup<Customer>>) -> (found: Vec<Customer>)
    ensures
        found@ == kept(lookups@),
{
    let ghost all = lookups@;
    let mut rest = lookups;
    let mut reversed: Vec<Customer> = Vec::new();
    while rest.len() > 0
        invariant
            rest@.len() <= all.len(),
            rest@ == all.take(rest@.len() as int),
            kept(all) == kept(rest@) + reversed@.reverse(),
        decreases rest@.len(),
    {
        let ghost before = rest@;
        let ghost seen = reversed@;
        let last = rest.pop();
        assert(rest@ == before.drop_last());
        match last {
            Some(Lookup::Found(customer)) => {
                reversed.push(customer);
                assert(reversed@.reverse() =~= seq![customer] + seen.reverse());
                assert(kept(before) + seen.reverse() =~= kept(rest@) + reversed@.reverse());
            },
            _ => {},
        }
        assert(rest@ =~= all.take(rest@.len() as int));
    }
    assert(kept(rest@) =~= Seq::<Customer>::empty());
    let mut found: Vec<Customer> = Vec::new();
    let ghost target = reversed@.reverse();
    while reversed.len() > 0
        invariant
            found@ + reversed@.reverse() == target,
        decreases reversed@.len(),
    {
        let ghost before = reversed@;
        let ghost seen = found@;
        let next = reversed.pop();
        match next {
            Some(customer) => {
                found.push(customer);
                assert(before.reverse() =~= seq![customer] + reversed@.reverse());
                assert(found@ + reversed@.reverse() =~= seen + before.reverse());
            },
            None => {},
        }
    }
    assert(reversed@.reverse() =~= Seq::<Customer>::empty());
    assert(found@ =~= found@ + reversed@.reverse());
    assert(target =~= kept(all));
    found
}

// ------------------------------------------------------- a store that holds

/// The customers in a store that keeps what is written, by key.
pub type CustomerRecords = Map<Seq<char>, CustomerView>;

/// The store once a customer has been registered under `id`.
pub open spec fn after_create_customer(
    store: CustomerRecords,
    id: Seq<char>,
    customer: CustomerView,
) -> CustomerRecords {
    store.insert(customer_key_text(id), stored_customer(id, customer))
}

/// What the read of the customer with identifier `id` finds in such a
/// store.
pub open spec fn read_customer(store: CustomerRecords, id: Seq<char>) -> Option<CustomerView> {
    if store.contains_key(customer_key_text(id)) {
        Some(store[customer_key_text(id)])
    } else {
        None
    }
}

/// A customer that was registered is found under its identifier, as it
/// was given but for the identifier, which it now holds. Customers under
/// other identifiers are as they were.
pub proof fn lemma_registered_is_found(
    store: CustomerRecords,
    id: Seq<char>,
    customer: CustomerView,
    other: Seq<char>,
)
    ensures
        read_customer(after_create_customer(store, id, customer), id) == Some(
            CustomerView { id: Some(id), ..customer },
        ),
        other != id ==> read_customer(after_create_customer(store, id, customer), other)
            == read_customer(store, other),
{
    lemma_keys_apart(id, other);
}

/// The groups in a store that keeps what is written, by key.
pub type Groups = Map<Seq<char>, CustomerGroupView>;

/// What the read of the group called `name` finds in such a store.
pub open spec fn read_group(store: Groups, name: Seq<char>) -> Lookup<CustomerGroupView> {
    if store.contains_key(group_key_text(name)) {
        Lookup::Found(store[group_key_text(name)])
    } else {
        Lookup::Missing
    }
}

/// The store once a planned write has been made.
pub open spec fn written(store: Groups, write: Option<(Seq<char>, CustomerGroupView)>) -> Groups {
    match write {
        Some((key, value)) => store.insert(key, value),
        None => store,
    }
}

/// The store once a request to create `group` has been served.
pub open spec fn after_create_group(store: Groups, group: CustomerGroupView) -> Groups {
    written(store, create_group_write(read_group(store, group.name), group))
}

/// The store once a request to add `customer` to the group called `name`
/// has been served.
pub open spec fn after_add_customer(store: Groups, name: Seq<char>, customer: Seq<char>) -> Groups {
    written(store, add_customer_write(read_group(store, name), customer))
}

/// Whether each group is stored under its own name.
pub open spec fn groups_in_place(store: Groups) -> bool {
    forall|name: Seq<char>| #[trigger]
        store.contains_key(group_key_text(name)) ==> store[group_key_text(name)].name == name
}

/// Joining is idempotent: a customer who has joined stands among the
/// members once, at the end if it was not a member before, and joining
/// again writes nothing and leaves the store as it is. Joining a group
/// without members makes the customer its only member.
pub proof fn lemma_add_customer_twice(store: Groups, name: Seq<char>, customer: Seq<char>)
    requires
        groups_in_place(store),
        read_group(store, name) is Found,
    ensures
        read_group(after_add_customer(store, name, customer), name) matches Lookup::Found(group)
            && group.members == Some(with_member(members_of(read_group(store, name)->0), customer)),
        add_customer_write(read_group(after_add_customer(store, name, customer), name), customer)
            is None,
        after_add_customer(after_add_customer(store, name, customer), name, customer)
            == after_add_customer(store, name, customer),
        groups_in_place(after_add_customer(store, name, customer)),
        members_of(read_group(store, name)->0).len() == 0 ==> with_member(
            members_of(read_group(store, name)->0),
            customer,
        ) == seq![customer],
        members_of(read_group(store, name)->0).no_duplicates() ==> with_member(
            members_of(read_group(store, name)->0),
            customer,
        ).no_duplicates(),
{
    let group = read_group(store, name)->0;
    let members = members_of(group);
    let after = after_add_customer(store, name, customer);
    assert(store.contains_key(group_key_text(name)));
    assert(group.name == name);
    if members.contains(customer) {
        assert(group.members == Some(members));
    } else {
        assert(members.push(customer)[members.len() as int] == customer);
        assert(members.push(customer).contains(customer));
    }
    assert(with_member(members, customer).contains(customer));
    assert forall|other: Seq<char>| #[trigger]
        after.contains_key(group_key_text(other)) implies after[group_key_text(other)].name
        == other by {
        lemma_keys_apart(other, name);
        if other != name {
            assert(store.contains_key(group_key_text(other)));
        }
    }
    if members.len() == 0 {
        assert(with_member(members, customer) =~= seq![customer]);
    }
}

/// A group is created once: after a request to create a group has been
/// served, the group is found, a second request for a group of that name
/// is refused and writes nothing, and the store is as the first request
/// left it.
pub proof fn lemma_create_group_twice(
    store: Groups,
    group: CustomerGroupView,
    again: CustomerGroupView,
)
    requires
        again.name == group.name,
    ensures
        read_group(after_create_group(store, group), group.name) is Found,
        !(read_group(store, group.name) is Found) ==> read_group(
            after_create_group(store, group),
            group.name,
        ) == Lookup::Found(new_group(group)),
        create_group_write(read_group(after_create_group(store, group), group.name), again)
            is None,
        after_create_group(after_create_group(store, group), again) == after_create_group(
            store,
            group,
        ),
{
}

/// From registration to listing: a customer registered under `id`, then
/// added to a group that was created without members, is the group's
/// only member; the listing of the group reads the one key of that
/// customer's record, and the read finds the customer as it was
/// registered, with its identifier.
pub proof fn lemma_registered_and_joined(
    customers: CustomerRecords,
    groups: Groups,
    id: Seq<char>,
    customer: CustomerView,
    group: CustomerGroupView,
)
    requires
        groups_in_place(groups),
        !(read_group(groups, group.name) is Found),
        group.members is None,
    ensures
        ({
            let created = after_create_group(groups, group);
            let joined = after_add_customer(created, group.name, id);
            let registered = after_create_customer(customers, id, customer);
            &&& read_group(joined, group.name) matches Lookup::Found(found)
            &&& found.name == group.name
            &&& found.members == Some(seq![id])
            &&& member_keys(members_of(found)) == seq![customer_key_text(id)]
            &&& registered.contains_key(customer_key_text(id))
            &&& registered[customer_key_text(id)] == stored_customer(id, customer)
            &&& stored_customer(id, customer).id == Some(id)
        }),
{
    let created = after_create_group(groups, group);
    assert(groups_in_place(created)) by {
        assert forall|other: Seq<char>| #[trigger]
            created.contains_key(group_key_text(other)) implies created[group_key_text(
            other,
        )].name == other by {
            lemma_keys_apart(other, group.name);
            if other != group.name {
                assert(groups.contains_key(group_key_text(other)));
            }
        }
    }
    lemma_add_customer_twice(created, group.name, id);
    let joined = after_add_customer(created, group.name, id);
    let found = read_group(joined, group.name)->Found_0;
    assert(members_of(new_group(group)) =~= Seq::<Seq<char>>::empty());
    assert(member_keys(members_of(found)) =~= seq![customer_key_text(id)]);
}

/// A member without a record does not fail the listing: what the read of
/// its record answered leaves no trace, and the customers found before
/// and behind it stay, in their order.
pub proof fn lemma_kept_apart(before: Seq<Lookup<Customer>>, behind: Seq<Lookup<Customer>>)
    ensures
        kept(before + behind) == kept(before) + kept(behind),
    decreases behind.len(),
{
    if behind.len() == 0 {
        assert(before + behind =~= before);
        assert(kept(before) + kept(behind) =~= kept(before));
    } else {
        lemma_kept_apart(before, behind.drop_last());
        assert((before + behind).drop_last() =~= before + behind.drop_last());
        assert((before + behind).last() == behind.last());
        match behind.last() {
            Lookup::Found(customer) => {
                assert((kept(before) + kept(behind.drop_last())).push(customer) =~= kept(before)
                    + kept(behind.drop_last()).push(customer));
            },
            _ => {},
        }
    }
}

/// A member without a record is omitted from the listing, and the
/// listing is otherwise the same.
pub proof fn lemma_missing_member_omitted(lookups: Seq<Lookup<Customer>>, i: int)
    requires
        0 <= i < lookups.len(),
        !(lookups[i] is Found),
    ensures
        kept(lookups) == kept(lookups.remove(i)),
{
    let before = lookups.take(i);
    let one = seq![lookups[i]];
    let behind = lookups.skip(i + 1);
    assert(lookups =~= before + one + behind);
    assert(lookups.remove(i) =~= before + behind);
    lemma_kept_apart(before + one, behind);
    lemma_kept_apart(before, one);
    lemma_kept_apart(before, behind);
    assert(kept(one) =~= Seq::<Customer>::empty()) by {
        reveal_with_fuel(kept, 2);
        assert(one.last() == lookups[i]);
        assert(one.drop_last() =~= Seq::<Lookup<Customer>>::empty());
    }
    assert(kept(before) + kept(one) =~= kept(before));
}

/// Where every member has a record, the listing holds them all, in the
/// members' order.
pub proof fn lemma_all_found(lookups: Seq<Lookup<Customer>>)
    requires
        forall|i: int| 0 <= i < lookups.len() ==> lookups[i] is Found,
    ensures
        kept(lookups).len() == lookups.len(),
        forall|i: int| 0 <= i < lookups.len() ==> lookups[i] == Lookup::Found(kept(lookups)[i]),
    decreases lookups.len(),
{
    if lookups.len() > 0 {
        let shorter = lookups.drop_last();
        lemma_all_found(shorter);
        assert(lookups.last() is Found);
        assert forall|i: int| 0 <= i < lookups.len() implies lookups[i] == Lookup::Found(
            kept(lookups)[i],
        ) by {
            if i < shorter.len() {
                assert(shorter[i] == lookups[i]);
            }
        }
    }
}

} // verus!
