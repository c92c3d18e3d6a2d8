//! The things the manager keeps: people, activities, reminders, notes and
//! the events drawn from them.
pub mod activity;
pub mod event;
pub mod note;
pub mod person;
pub mod reminder;

use vstd::prelude::*;

use crate::entities::activity::Activity;
use crate::entities::note::Note;
use crate::entities::person::Person;
use crate::entities::reminder::Reminder;

verus! {

/// Any one entity, as a lookup by id finds it.
#[derive(Debug)]
pub enum Entities {
    Person(Person),
    Activity(Activity),
    Reminder(Reminder),
    Note(Note),
}

/// An entity with a numeric id.
pub trait Entity {
    spec fn spec_id(&self) -> u64;

    fn get_id(&self) -> (id: u64)
        ensures
            id == self.spec_id(),
    ;
}

} // verus!
