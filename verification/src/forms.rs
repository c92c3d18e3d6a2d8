//! The editor forms: each template as text and placeholders, and the text
//! that filling it gives.
use vstd::prelude::*;

use crate::entities::activity::ACTIVITY_TEMPLATE;
use crate::entities::note::NOTE_TEMPLATE;
use crate::entities::person::PERSON_TEMPLATE;
use crate::entities::reminder::REMINDER_TEMPLATE;
use crate::template::{fill_parts, plain_parts, render, var_map, TemplatePart};

verus! {

/// The names of the template variables, told apart by length and first
/// letter.
pub proof fn lemma_variable_names()
    ensures
        "name"@.len() == 4 && "name"@[0] == 'n',
        "date"@.len() == 4 && "date"@[0] == 'd',
        "birthday"@.len() == 8,
        "contact_info"@.len() == 12,
        "activities"@.len() == 10,
        "reminders"@.len() == 9,
        "activity_type"@.len() == 13,
        "content"@.len() == 7,
        "people"@.len() == 6,
        "recurring_type"@.len() == 14,
        "description"@.len() == 11,
{
    reveal_strlit("name");
    reveal_strlit("date");
    reveal_strlit("birthday");
    reveal_strlit("contact_info");
    reveal_strlit("activities");
    reveal_strlit("reminders");
    reveal_strlit("activity_type");
    reveal_strlit("content");
    reveal_strlit("people");
    reveal_strlit("recurring_type");
    reveal_strlit("description");
}

/// The parts of the person template.
pub open spec fn person_parts() -> Seq<TemplatePart> {
    seq![
        TemplatePart::Text("Name: "@),
        TemplatePart::Var("name"@),
        TemplatePart::Text("\nBirthday: "@),
        TemplatePart::Var("birthday"@),
        TemplatePart::Text("\nContact Info: "@),
        TemplatePart::Var("contact_info"@),
        TemplatePart::Text("\nActivities: "@),
        TemplatePart::Var("activities"@),
        TemplatePart::Text("\nReminders: "@),
        TemplatePart::Var("reminders"@),
        TemplatePart::Text("\n"@),
    ]
}

/// The person template is made of these plain parts.
pub proof fn lemma_person_template()
    ensures
        PERSON_TEMPLATE@ == render(person_parts()),
        plain_parts(person_parts()),
{
    reveal_strlit("Name: {name}\nBirthday: {birthday}\nContact Info: {contact_info}\nActivities: {activities}\nReminders: {reminders}\n");
    reveal_strlit("Name: ");
    reveal_strlit("name");
    reveal_strlit("\nBirthday: ");
    reveal_strlit("birthday");
    reveal_strlit("\nContact Info: ");
    reveal_strlit("contact_info");
    reveal_strlit("\nActivities: ");
    reveal_strlit("activities");
    reveal_strlit("\nReminders: ");
    reveal_strlit("reminders");
    reveal_strlit("\n");
    reveal_with_fuel(render, 12);
    assert(PERSON_TEMPLATE@ =~= render(person_parts()));
}

/// Without an `activities` variable the person template cannot be filled.
pub proof fn lemma_person_unfilled(m: Map<Seq<char>, Seq<char>>)
    requires
        !m.contains_key("activities"@),
    ensures
        fill_parts(person_parts(), m) is None,
{
    let parts = person_parts();
    reveal_with_fuel(fill_parts, 5);
    assert(parts.take(8).last() == TemplatePart::Var("activities"@));
    assert(fill_parts(parts.take(8), m) is None);
    assert(parts.take(9).drop_last() =~= parts.take(8));
    assert(parts.take(10).drop_last() =~= parts.take(9));
    assert(parts.take(11).drop_last() =~= parts.take(10));
    assert(parts.take(11) =~= parts);
}

/// The parts of the activity template.
pub open spec fn activity_parts() -> Seq<TemplatePart> {
    seq![
        TemplatePart::Text("Name: "@),
        TemplatePart::Var("name"@),
        TemplatePart::Text("\nDate: "@),
        TemplatePart::Var("date"@),
        TemplatePart::Text("\nActivity Type: "@),
        TemplatePart::Var("activity_type"@),
        TemplatePart::Text("\nContent: "@),
        TemplatePart::Var("content"@),
        TemplatePart::Text("\nPeople: "@),
        TemplatePart::Var("people"@),
        TemplatePart::Text("\n"@),
    ]
}

/// The activity template is made of these plain parts.
pub proof fn lemma_activity_template()
    ensures
        ACTIVITY_TEMPLATE@ == render(activity_parts()),
        plain_parts(activity_parts()),
{
    reveal_strlit("Name: {name}\nDate: {date}\nActivity Type: {activity_type}\nContent: {content}\nPeople: {people}\n");
    reveal_strlit("Name: ");
    reveal_strlit("name");
    reveal_strlit("\nDate: ");
    reveal_strlit("date");
    reveal_strlit("\nActivity Type: ");
    reveal_strlit("activity_type");
    reveal_strlit("\nContent: ");
    reveal_strlit("content");
    reveal_strlit("\nPeople: ");
    reveal_strlit("people");
    reveal_strlit("\n");
    reveal_with_fuel(render, 12);
    assert(ACTIVITY_TEMPLATE@ =~= render(activity_parts()));
}

/// The text of an activity in the editor: each field on a line of its own
/// after its label.
pub open spec fn activity_form(
    name: Seq<char>,
    date: Seq<char>,
    activity_type: Seq<char>,
    content: Seq<char>,
    people: Seq<char>,
) -> Seq<char> {
    "Name: "@ + name + "\nDate: "@ + date + "\nActivity Type: "@ + activity_type + "\nContent: "@
        + content + "\nPeople: "@ + people + "\n"@
}

/// Filling the activity template with its five variables gives the form of
/// their values.
pub proof fn lemma_activity_fill(m: Map<Seq<char>, Seq<char>>)
    requires
        m.contains_key("name"@),
        m.contains_key("date"@),
        m.contains_key("activity_type"@),
        m.contains_key("content"@),
        m.contains_key("people"@),
    ensures
        fill_parts(activity_parts(), m) == Some(
            activity_form(m["name"@], m["date"@], m["activity_type"@], m["content"@], m["people"@]),
        ),
{
    reveal_with_fuel(fill_parts, 12);
    assert(fill_parts(activity_parts(), m)->0 =~= activity_form(
        m["name"@],
        m["date"@],
        m["activity_type"@],
        m["content"@],
        m["people"@],
    ));
}

/// The parts of the reminder template.
pub open spec fn reminder_parts() -> Seq<TemplatePart> {
    seq![
        TemplatePart::Text("Name: "@),
        TemplatePart::Var("name"@),
        TemplatePart::Text("\nDate: "@),
        TemplatePart::Var("date"@),
        TemplatePart::Text("\nRecurring: "@),
        TemplatePart::Var("recurring_type"@),
        TemplatePart::Text("\nDescription: "@),
        TemplatePart::Var("description"@),
        TemplatePart::Text("\nPeople: "@),
        TemplatePart::Var("people"@),
        TemplatePart::Text("\n"@),
    ]
}

/// The reminder template is made of these plain parts.
pub proof fn lemma_reminder_template()
    ensures
        REMINDER_TEMPLATE@ == render(reminder_parts()),
        plain_parts(reminder_parts()),
{
    reveal_strlit("Name: {name}\nDate: {date}\nRecurring: {recurring_type}\nDescription: {description}\nPeople: {people}\n");
    reveal_strlit("Name: ");
    reveal_strlit("name");
    reveal_strlit("\nDate: ");
    reveal_strlit("date");
    reveal_strlit("\nRecurring: ");
    reveal_strlit("recurring_type");
    reveal_strlit("\nDescription: ");
    reveal_strlit("description");
    reveal_strlit("\nPeople: ");
    reveal_strlit("people");
    reveal_strlit("\n");
    reveal_with_fuel(render, 12);
    assert(REMINDER_TEMPLATE@ =~= render(reminder_parts()));
}

/// The text of a reminder in the editor: each field on a line of its own
/// after its label.
pub open spec fn reminder_form(
    name: Seq<char>,
    date: Seq<char>,
    recurring: Seq<char>,
    description: Seq<char>,
    people: Seq<char>,
) -> Seq<char> {
    "Name: "@ + name + "\nDate: "@ + date + "\nRecurring: "@ + recurring + "\nDescription: "@
        + description + "\nPeople: "@ + people + "\n"@
}

/// Filling the reminder template with its five variables gives the form of
/// their values.
pub proof fn lemma_reminder_fill(m: Map<Seq<char>, Seq<char>>)
    requires
        m.contains_key("name"@),
        m.contains_key("date"@),
        m.contains_key("recurring_type"@),
        m.contains_key("description"@),
        m.contains_key("people"@),
    ensures
        fill_parts(reminder_parts(), m) == Some(
            reminder_form(
                m["name"@],
                m["date"@],
                m["recurring_type"@],
                m["description"@],
                m["people"@],
            ),
        ),
{
    reveal_with_fuel(fill_parts, 12);
    assert(fill_parts(reminder_parts(), m)->0 =~= reminder_form(
        m["name"@],
        m["date"@],
        m["recurring_type"@],
        m["description"@],
        m["people"@],
    ));
}

/// The parts of the note template.
pub open spec fn note_parts() -> Seq<TemplatePart> {
    seq![
        TemplatePart::Text("Date: "@),
        TemplatePart::Var("date"@),
        TemplatePart::Text("\nContent: "@),
        TemplatePart::Var("content"@),
        TemplatePart::Text("\nPeople: "@),
        TemplatePart::Var("people"@),
        TemplatePart::Text("\n"@),
    ]
}

/// The note template is made of these plain parts.
pub proof fn lemma_note_template()
    ensures
        NOTE_TEMPLATE@ == render(note_parts()),
        plain_parts(note_parts()),
{
    reveal_strlit("Date: {date}\nContent: {content}\nPeople: {people}\n");
    reveal_strlit("Date: ");
    reveal_strlit("date");
    reveal_strlit("\nContent: ");
    reveal_strlit("content");
    reveal_strlit("\nPeople: ");
    reveal_strlit("people");
    reveal_strlit("\n");
    reveal_with_fuel(render, 8);
    assert(NOTE_TEMPLATE@ =~= render(note_parts()));
}

/// The text of a note in the editor: each field on a line of its own after
/// its label.
pub open spec fn note_form(date: Seq<char>, content: Seq<char>, people: Seq<char>) -> Seq<char> {
    "Date: "@ + date + "\nContent: "@ + content + "\nPeople: "@ + people + "\n"@
}

/// Filling the note template with its three variables gives the form of
/// their values.
pub proof fn lemma_note_fill(m: Map<Seq<char>, Seq<char>>)
    requires
        m.contains_key("date"@),
        m.contains_key("content"@),
        m.contains_key("people"@),
    ensures
        fill_parts(note_parts(), m) == Some(note_form(m["date"@], m["content"@], m["people"@])),
{
    reveal_with_fuel(fill_parts, 8);
    assert(fill_parts(note_parts(), m)->0 =~= note_form(m["date"@], m["content"@], m["people"@]));
}

/// Without a `date` variable the note template cannot be filled.
pub proof fn lemma_note_unfilled(m: Map<Seq<char>, Seq<char>>)
    requires
        !m.contains_key("date"@),
    ensures
        fill_parts(note_parts(), m) is None,
{
    let parts = note_parts();
    reveal_with_fuel(fill_parts, 3);
    assert(parts.take(2).drop_last() =~= parts.take(1));
    assert(parts.take(1).drop_last() =~= parts.take(0));
    assert(parts.take(2).last() == TemplatePart::Var("date"@));
    assert(fill_parts(parts.take(2), m) is None);
    assert(parts.take(3).drop_last() =~= parts.take(2));
    assert(fill_parts(parts.take(3), m) is None);
    assert(parts.take(4).drop_last() =~= parts.take(3));
    assert(fill_parts(parts.take(4), m) is None);
    assert(parts.take(5).drop_last() =~= parts.take(4));
    assert(fill_parts(parts.take(5), m) is None);
    assert(parts.take(6).drop_last() =~= parts.take(5));
    assert(fill_parts(parts.take(6), m) is None);
    assert(parts.take(7).drop_last() =~= parts.take(6));
    assert(fill_parts(parts.take(7), m) is None);
    assert(parts.take(7) =~= parts);
}

} // verus!
