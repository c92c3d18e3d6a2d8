//! The decisions that keeping entities in the database takes: which links
//! have gone stale and how the list of an `IN` query is written.
use vstd::prelude::*;

use crate::entities::activity::Activity;
use crate::entities::person::{contact_kind_name, ContactInfo, Person};
use crate::entities::reminder::Reminder;
use crate::helpers::{repeat_vars, spec_repeat_vars};
use crate::text::push_str;

verus! {

/// The stored ids that are not among the kept ones, in stored order.
pub open spec fn stale(stored: Seq<u64>, kept: Seq<u64>) -> Seq<u64>
    decreases stored.len(),
{
    if stored.len() == 0 {
        Seq::empty()
    } else if kept.contains(stored.last()) {
        stale(stored.drop_last(), kept)
    } else {
        stale(stored.drop_last(), kept).push(stored.last())
    }
}

/// Whether `x` is one of `v`.
pub fn contains_id(v: &Vec<u64>, x: u64) -> (b: bool)
    ensures
        b == v@.contains(x),
{
    let mut i: usize = 0;
    while i < v.len()
        invariant
            0 <= i <= v@.len(),
            forall|j: int| 0 <= j < i ==> v@[j] != x,
        decreases v@.len() - i,
    {
        if v[i] == x {
            assert(v@[i as int] == x);
            return true;
        }
        i = i + 1;
    }
    false
}

/// The links of the database that no longer stand: the stored ids that are
/// not kept.
pub fn stale_ids(stored: &Vec<u64>, kept: &Vec<u64>) -> (r: Vec<u64>)
    ensures
        r@ == stale(stored@, kept@),
{
    let mut r: Vec<u64> = Vec::new();
    let mut i: usize = 0;
    while i < stored.len()
        invariant
            0 <= i <= stored@.len(),
            r@ == stale(stored@.take(i as int), kept@),
        decreases stored@.len() - i,
    {
        assert(stored@.take(i + 1).drop_last() =~= stored@.take(i as int));
        if !contains_id(kept, stored[i]) {
            r.push(stored[i]);
        }
        i = i + 1;
    }
    assert(stored@.take(stored@.len() as int) =~= stored@);
    r
}

/// The ids of the activities of a person.
pub fn activity_ids(activities: &Vec<Activity>) -> (ids: Vec<u64>)
    ensures
        ids@ == activities@.map_values(|a: Activity| a.id),
{
    let mut ids: Vec<u64> = Vec::new();
    let mut i: usize = 0;
    while i < activities.len()
        invariant
            0 <= i <= activities@.len(),
            ids@ == activities@.take(i as int).map_values(|a: Activity| a.id),
        decreases activities@.len() - i,
    {
        ids.push(activities[i].id);
        i = i + 1;
        assert(ids@ =~= activities@.take(i as int).map_values(|a: Activity| a.id));
    }
    assert(activities@.take(activities@.len() as int) =~= activities@);
    ids
}

/// The ids of the reminders of a person.
pub fn reminder_ids(reminders: &Vec<Reminder>) -> (ids: Vec<u64>)
    ensures
        ids@ == reminders@.map_values(|r: Reminder| r.id),
{
    let mut ids: Vec<u64> = Vec::new();
    let mut i: usize = 0;
    while i < reminders.len()
        invariant
            0 <= i <= reminders@.len(),
            ids@ == reminders@.take(i as int).map_values(|r: Reminder| r.id),
        decreases reminders@.len() - i,
    {
        ids.push(reminders[i].id);
        i = i + 1;
        assert(ids@ =~= reminders@.take(i as int).map_values(|r: Reminder| r.id));
    }
    assert(reminders@.take(reminders@.len() as int) =~= reminders@);
    ids
}

/// The (type name, details) pair of a contact info, as it is compared.
pub open spec fn contact_pair(c: ContactInfo) -> (Seq<char>, Seq<char>) {
    (contact_kind_name(c.contact_info_type.kind()), c.details@)
}

/// Whether one of the contact infos has the given type name and details.
pub open spec fn has_contact_pair(cs: Seq<ContactInfo>, pair: (Seq<char>, Seq<char>)) -> bool {
    exists|i: int| 0 <= i < cs.len() && contact_pair(#[trigger] cs[i]) == pair
}

/// The ids of the stored contact infos whose type and details are not
/// among the current ones, in stored order.
pub open spec fn stale_contacts(stored: Seq<ContactInfo>, current: Seq<ContactInfo>) -> Seq<u64>
    decreases stored.len(),
{
    if stored.len() == 0 {
        Seq::empty()
    } else if has_contact_pair(current, contact_pair(stored.last())) {
        stale_contacts(stored.drop_last(), current)
    } else {
        stale_contacts(stored.drop_last(), current).push(stored.last().id)
    }
}

/// Whether some current contact info has the type and details of `c`.
fn has_contact(current: &Vec<ContactInfo>, c: &ContactInfo) -> (b: bool)
    ensures
        b == has_contact_pair(current@, contact_pair(*c)),
{
    let mut i: usize = 0;
    while i < current.len()
        invariant
            0 <= i <= current@.len(),
            forall|j: int| 0 <= j < i ==> contact_pair(#[trigger] current@[j]) != contact_pair(*c),
        decreases current@.len() - i,
    {
        let same_type = crate::text::str_eq(
            current[i].contact_info_type.as_ref(),
            c.contact_info_type.as_ref(),
        );
        let same_details = crate::text::str_eq(current[i].details.as_str(), c.details.as_str());
        if same_type && same_details {
            assert(contact_pair(current@[i as int]) == contact_pair(*c));
            return true;
        }
        i = i + 1;
    }
    false
}

/// The stored contact infos to mark deleted when a person is saved: the
/// stale ones, or none at all when the person has no contact infos (saving
/// then leaves the stored ones as they are).
pub fn contact_info_to_unlink(stored: &Vec<ContactInfo>, current: &Vec<ContactInfo>) -> (r: Vec<
    u64,
>)
    ensures
        current@.len() == 0 ==> r@.len() == 0,
        current@.len() > 0 ==> r@ == stale_contacts(stored@, current@),
{
    if current.len() == 0 {
        Vec::new()
    } else {
        stale_contact_info_ids(stored, current)
    }
}

/// The stored contact infos of a person that the person no longer has: the
/// ids of those whose type and details match none of the current ones.
pub fn stale_contact_info_ids(stored: &Vec<ContactInfo>, current: &Vec<ContactInfo>) -> (r: Vec<
    u64,
>)
    ensures
        r@ == stale_contacts(stored@, current@),
{
    let mut r: Vec<u64> = Vec::new();
    let mut i: usize = 0;
    while i < stored.len()
        invariant
            0 <= i <= stored@.len(),
            r@ == stale_contacts(stored@.take(i as int), current@),
        decreases stored@.len() - i,
    {
        assert(stored@.take(i + 1).drop_last() =~= stored@.take(i as int));
        if !has_contact(current, &stored[i]) {
            r.push(stored[i].id);
        }
        i = i + 1;
    }
    assert(stored@.take(stored@.len() as int) =~= stored@);
    r
}

/// An SQL query whose list holds `count` placeholders: `before`, the
/// placeholders, then `after`.
pub fn query_with_list(before: &str, count: usize, after: &str) -> (q: String)
    requires
        count != 0,
    ensures
        q@ == before@ + spec_repeat_vars(count as nat) + after@,
{
    let mut q = String::new();
    push_str(&mut q, before);
    let vars = repeat_vars(count);
    push_str(&mut q, vars.as_str());
    push_str(&mut q, after);
    q
}

} // verus!
