//! Editing an entity: the text the editor opens with, and what the edited
//! text changes.
use vstd::prelude::*;

use crate::date::{flexible_date, iso_date_text, Date};
use crate::entities::activity::{
    activity_editor_fold, activity_type_name, Activity, ActivityType, ACTIVITY_TEMPLATE,
};
use crate::entities::note::{note_editor_fold, Note, NOTE_TEMPLATE};
use crate::entities::person::{
    contact_info_entries, contact_kind_name, contact_splits, contact_splits_ok, contacts_reachable_ok,
    details_updated,
    join_people_names, people_names, person_editor_fold, ContactInfo, Person, PERSON_TEMPLATE,
};
use crate::entities::reminder::{
    recurring_from_cli_name, recurring_name, reminder_editor_fold, RecurringType, Reminder,
    REMINDER_TEMPLATE,
};
use crate::helpers::activity_type_from_name;
use crate::forms::{
    activity_form, lemma_activity_fill, lemma_activity_template, lemma_note_fill,
    lemma_note_template, lemma_person_template, lemma_person_unfilled, lemma_reminder_fill,
    lemma_reminder_template, lemma_variable_names, note_form, reminder_form,
};
use crate::template::{
    fill_parts, fill_template, pair_seqs, plain_parts, render, strfmt_text, var_map, TemplatePart,
};
use crate::text::{
    ascii_lower, join_strings, join_with, lines_of, push_char, push_str, string_of, string_seqs,
    to_lowercase_ascii,
};
use crate::CliError;

verus! {

/// The value a field shows in the editor: the one given on the command line,
/// otherwise the stored one.
pub open spec fn given_or(given: Option<String>, stored: Seq<char>) -> Seq<char> {
    match given {
        Some(g) => g@,
        None => stored,
    }
}

fn given_or_text(given: Option<String>, stored: &str) -> (s: String)
    ensures
        s@ == given_or(given, stored@),
{
    match given {
        Some(g) => g,
        None => string_of(stored),
    }
}

/// A contact info as the editor shows it: its type in lower case, a colon
/// and its details.
pub open spec fn contact_info_entry(c: ContactInfo) -> Seq<char> {
    ascii_lower(contact_kind_name(c.contact_info_type.kind())) + ":"@ + c.details@
}

/// The contact infos of a person as the editor shows them, comma-separated.
pub open spec fn contact_info_field(cs: Seq<ContactInfo>) -> Seq<char> {
    join_with(cs.map_values(|c: ContactInfo| contact_info_entry(c)), ","@)
}

/// The contact infos of a person as the editor shows them.
pub fn contact_info_field_text(cs: &Vec<ContactInfo>) -> (s: String)
    ensures
        s@ == contact_info_field(cs@),
{
    let mut entries: Vec<String> = Vec::new();
    let mut i: usize = 0;
    while i < cs.len()
        invariant
            0 <= i <= cs@.len(),
            string_seqs(entries@) == cs@.take(i as int).map_values(
                |c: ContactInfo| contact_info_entry(c),
            ),
        decreases cs@.len() - i,
    {
        let mut e = to_lowercase_ascii(cs[i].contact_info_type.as_ref());
        push_str(&mut e, ":");
        push_str(&mut e, cs[i].details.as_str());
        let ghost before = string_seqs(entries@);
        entries.push(e);
        i = i + 1;
        assert(string_seqs(entries@) =~= before.push(contact_info_entry(cs@[i - 1])));
        assert(cs@.take(i as int) =~= cs@.take(i - 1).push(cs@[i - 1]));
        assert(cs@.take(i as int).map_values(|c: ContactInfo| contact_info_entry(c)) =~= cs@.take(
            i - 1,
        ).map_values(|c: ContactInfo| contact_info_entry(c)).push(contact_info_entry(cs@[i - 1])));
    }
    assert(cs@.take(cs@.len() as int) =~= cs@);
    join_strings(&entries, ",")
}

/// A date as text, or nothing.
pub open spec fn opt_date_text(d: Option<Date>) -> Seq<char> {
    match d {
        Some(b) => iso_date_text(b@.0, b@.1, b@.2),
        None => Seq::empty(),
    }
}

/// A template variable: its name and value.
fn var(name: &str, value: String) -> (p: (String, String))
    ensures
        p.0@ == name@,
        p.1 == value,
{
    (string_of(name), value)
}

/// The variables of the editor template for a person.
pub open spec fn person_vars(
    person: Person,
    name: Option<String>,
    birthday: Option<String>,
    contact_info: Option<String>,
) -> Seq<(Seq<char>, Seq<char>)> {
    seq![
        ("name"@, given_or(name, person.name@)),
        ("birthday"@, given_or(birthday, opt_date_text(person.birthday))),
        ("contact_info"@, given_or(contact_info, contact_info_field(person.contact_info@))),
    ]
}

/// The outcome of filling a template: the text, or an error that names the
/// template and the variables.
pub open spec fn template_result(
    r: Result<String, CliError>,
    template: Seq<char>,
    vars: Seq<(Seq<char>, Seq<char>)>,
    error_template: Seq<char>,
) -> bool {
    match strfmt_text(template, vars) {
        Some(t) => r matches Ok(s) && s@ == t,
        None => r matches Err(CliError::Template { template: et, vars: v }) && r->Err_0->template@
            == error_template && pair_seqs(r->Err_0->vars@) == vars,
    }
}

/// Fills a template, or names it and its variables in the error.
fn fill_or_error(template: &str, vars: Vec<(String, String)>, error_template: &str) -> (r: Result<
    String,
    CliError,
>)
    ensures
        template_result(r, template@, pair_seqs(vars@), error_template@),
        forall|parts: Seq<TemplatePart>|
            plain_parts(parts) && #[trigger] render(parts) == template@ ==> match fill_parts(
                parts,
                var_map(pair_seqs(vars@)),
            ) {
                Some(t) => r matches Ok(s) && s@ == t,
                None => r is Err,
            },
{
    match fill_template(template, &vars) {
        Some(text) => Ok(text),
        None => Err(CliError::Template { template: string_of(error_template), vars }),
    }
}

/// The text the editor opens for a person: each field as given on the
/// command line, otherwise as stored.
pub fn person_editor_text(
    person: &Person,
    name: Option<String>,
    birthday: Option<String>,
    contact_info: Option<String>,
) -> (r: Result<String, CliError>)
    ensures
        template_result(
            r,
            PERSON_TEMPLATE@,
            person_vars(*person, name, birthday, contact_info),
            PERSON_TEMPLATE@,
        ),
        r matches Err(CliError::Template { template, vars }) && template@ == PERSON_TEMPLATE@
            && pair_seqs(vars@) == person_vars(*person, name, birthday, contact_info),
{
    let ghost expected = person_vars(*person, name, birthday, contact_info);
    let stored_birthday = match &person.birthday {
        Some(b) => b.to_iso_string(),
        None => String::new(),
    };
    let stored_contacts = contact_info_field_text(&person.contact_info);
    let mut vars: Vec<(String, String)> = Vec::new();
    vars.push(var("name", given_or_text(name, person.name.as_str())));
    vars.push(var("birthday", given_or_text(birthday, stored_birthday.as_str())));
    vars.push(var("contact_info", given_or_text(contact_info, stored_contacts.as_str())));
    assert(pair_seqs(vars@) =~= expected);
    proof {
        lemma_person_template();
        lemma_variable_names();
        reveal_with_fuel(var_map, 4);
        lemma_person_unfilled(var_map(expected));
    }
    fill_or_error(PERSON_TEMPLATE, vars, PERSON_TEMPLATE)
}

/// An error naming the entity.
fn entity_error(kind: u8, entity: &str) -> (e: CliError)
    ensures
        kind == 0 ==> (e matches CliError::EditorParse { entity: x } && x@ == entity@),
        kind != 0 ==> (e matches CliError::Edit { entity: x } && x@ == entity@),
{
    if kind == 0 {
        CliError::EditorParse { entity: string_of(entity) }
    } else {
        CliError::Edit { entity: string_of(entity) }
    }
}

/// Whether the contact infos of an edited person can be read where the
/// update reaches them: every entry that the reading reaches has a type and
/// a value, unless an unreadable birthday stops the update first.
pub open spec fn edited_contacts_ok(edited: Seq<char>) -> bool {
    let st = person_editor_fold(lines_of(edited));
    st.error is None ==> contacts_reachable_ok(st.birthday, Some(join_with(st.contact_info, ","@)))
}

/// Changes a person as the edited text says: name, birthday and contact
/// infos. A text that does not read as a person, or a change that fails,
/// gives an error that names the person entity.
pub fn apply_person_edit(person: &mut Person, edited: &str) -> (r: Result<(), CliError>)
    requires
        edited_contacts_ok(edited@),
    ensures
        ({
            let st = person_editor_fold(lines_of(edited@));
            &&& st.error is Some ==> {
                &&& r matches Err(CliError::EditorParse { entity })
                &&& r->Err_0->EditorParse_entity@ == "Person"@
                &&& *final(person) == *old(person)
            }
            &&& st.error is None ==> exists|r0: Result<(), CliError>|
                {
                    &&& details_updated(
                        *old(person),
                        *final(person),
                        r0,
                        st.name,
                        st.birthday,
                        Some(join_with(st.contact_info, ","@)),
                    )
                    &&& r0 is Ok ==> r is Ok
                    &&& r0 is Err ==> (r matches Err(CliError::Edit { entity })
                        && r->Err_0->Edit_entity@ == "Person"@)
                }
        }),
{
    let data = match Person::parse_from_editor(edited) {
        Ok(data) => data,
        Err(_) => {
            return Err(entity_error(0, "Person"));
        },
    };
    let contact_info = join_strings(&data.contact_info, ",");
    let r0 = person.update_details(data.name, data.birthday, Some(contact_info));
    match r0 {
        Ok(()) => Ok(()),
        Err(_) => Err(entity_error(1, "Person")),
    }
}

/// Whether applying an edited person text is safe: see
/// `edited_contacts_ok`.
pub fn edited_contacts_readable(edited: &str) -> (b: bool)
    ensures
        b == edited_contacts_ok(edited@),
{
    match Person::parse_from_editor(edited) {
        Ok(data) => {
            let reached = match &data.birthday {
                Some(b) => crate::date::parse_flexible(b.as_str()).is_some(),
                None => true,
            };
            if !reached {
                return true;
            }
            let contact_info = join_strings(&data.contact_info, ",");
            crate::entities::person::contact_info_text_ok(contact_info.as_str())
        },
        Err(_) => true,
    }
}

/// The variables of the editor template for an activity.
pub open spec fn activity_vars(
    a: Activity,
    name: Option<String>,
    activity_type: Option<String>,
    date: Option<String>,
    content: Option<String>,
) -> Seq<(Seq<char>, Seq<char>)> {
    seq![
        ("name"@, given_or(name, a.name@)),
        ("date"@, given_or(date, iso_date_text(a.date@.0, a.date@.1, a.date@.2))),
        ("activity_type"@, given_or(activity_type, ascii_lower(activity_type_name(a.activity_type)))),
        ("content"@, given_or(content, a.content@)),
        ("people"@, join_with(people_names(a.people@), ","@)),
    ]
}

/// The text the editor opens for an activity: each field as given on the
/// command line, otherwise as stored (the type in lower case), and the
/// names of its people. The stored date, as shown, reads back as the same
/// date.
pub fn activity_editor_text(
    activity: &Activity,
    name: Option<String>,
    activity_type: Option<String>,
    date: Option<String>,
    content: Option<String>,
) -> (r: Result<String, CliError>)
    ensures
        template_result(
            r,
            ACTIVITY_TEMPLATE@,
            activity_vars(*activity, name, activity_type, date, content),
            ACTIVITY_TEMPLATE@,
        ),
        ({
            let v = activity_vars(*activity, name, activity_type, date, content);
            r matches Ok(t) && t@ == activity_form(v[0].1, v[1].1, v[2].1, v[3].1, v[4].1)
        }),
        flexible_date(iso_date_text(activity.date@.0, activity.date@.1, activity.date@.2)) == Some(activity.date@),
{
    let ghost expected = activity_vars(*activity, name, activity_type, date, content);
    let stored_date = activity.date.to_iso_string();
    let stored_type = to_lowercase_ascii(activity.activity_type.as_ref());
    let people = join_people_names(&activity.people, ",");
    let mut vars: Vec<(String, String)> = Vec::new();
    vars.push(var("name", given_or_text(name, activity.name.as_str())));
    vars.push(var("date", given_or_text(date, stored_date.as_str())));
    vars.push(var("activity_type", given_or_text(activity_type, stored_type.as_str())));
    vars.push(var("content", given_or_text(content, activity.content.as_str())));
    vars.push(var("people", people));
    assert(pair_seqs(vars@) =~= expected);
    proof {
        lemma_activity_template();
        lemma_variable_names();
        reveal_with_fuel(var_map, 6);
        let m = var_map(expected);
        assert(m.contains_key("name"@) && m["name"@] == expected[0].1);
        assert(m.contains_key("date"@) && m["date"@] == expected[1].1);
        assert(m.contains_key("activity_type"@) && m["activity_type"@] == expected[2].1);
        assert(m.contains_key("content"@) && m["content"@] == expected[3].1);
        assert(m.contains_key("people"@) && m["people"@] == expected[4].1);
        lemma_activity_fill(m);
    }
    fill_or_error(ACTIVITY_TEMPLATE, vars, ACTIVITY_TEMPLATE)
}

/// An error for a field that the edited text left out.
fn missing_field(entity: &str, field: &str) -> (e: CliError)
    ensures
        e matches CliError::MissingField { entity: x, field: y } && x@ == entity@ && y@ == field@,
{
    CliError::MissingField { entity: string_of(entity), field: string_of(field) }
}

/// Whether `e` reports the field of the entity as missing.
pub open spec fn is_missing(e: CliError, entity: Seq<char>, field: Seq<char>) -> bool {
    e matches CliError::MissingField { entity: x, field: y } && x@ == entity && y@ == field
}

/// Whether `e` names the entity as one the editor text did not give.
pub open spec fn is_editor_parse(e: CliError, entity: Seq<char>) -> bool {
    e matches CliError::EditorParse { entity: x } && x@ == entity
}

/// Whether `e` names the entity as one whose change failed.
pub open spec fn is_edit_error(e: CliError, entity: Seq<char>) -> bool {
    e matches CliError::Edit { entity: x } && x@ == entity
}

/// Reads an edited activity: name, type, date, content and the names of its
/// people. A text that does not read as an activity, or one without a date,
/// type or content (checked in that order), gives an error.
pub fn read_activity_edit(edited: &str) -> (r: Result<(String, String, String, String, Vec<String>), CliError>)
    ensures
        ({
            let st = activity_editor_fold(lines_of(edited@));
            if st.error {
                r is Err && is_editor_parse(r->Err_0, "Activity"@)
            } else if st.date is None {
                r is Err && is_missing(r->Err_0, "activity"@, "date"@)
            } else if st.activity_type is None {
                r is Err && is_missing(r->Err_0, "activity"@, "activity type"@)
            } else if st.content is None {
                r is Err && is_missing(r->Err_0, "activity"@, "content"@)
            } else {
                r matches Ok(t) && t.0@ == st.name && t.1@ == st.activity_type->0 && t.2@
                    == st.date->0 && t.3@ == st.content->0 && string_seqs(t.4@) == st.people
            }
        }),
{
    let (n, d, t, c, p) = match Activity::parse_from_editor(edited) {
        Ok(fields) => fields,
        Err(_) => {
            return Err(entity_error(0, "Activity"));
        },
    };
    let date = match d {
        Some(d) => d,
        None => {
            return Err(missing_field("activity", "date"));
        },
    };
    let activity_type = match t {
        Some(t) => t,
        None => {
            return Err(missing_field("activity", "activity type"));
        },
    };
    let content = match c {
        Some(c) => c,
        None => {
            return Err(missing_field("activity", "content"));
        },
    };
    Ok((n, activity_type, date, content, p))
}

/// Changes an activity to the edited name, type, date and content, and to
/// the people found for the edited names (`None` when that lookup failed).
/// A type or date that cannot be read, or a failed lookup, gives an error
/// that names the activity entity.
pub fn apply_activity_edit(
    activity: &mut Activity,
    name: String,
    activity_type: String,
    date: String,
    content: String,
    people: Option<Vec<Person>>,
) -> (r: Result<(), CliError>)
    ensures
        final(activity).id == old(activity).id,
        final(activity).name == name,
        (activity_type_from_name(activity_type@) is Some && flexible_date(date@) is Some
            && people is Some) <==> r is Ok,
        r is Err ==> is_edit_error(r->Err_0, "Activity"@),
        r is Ok ==> {
            &&& Some(final(activity).activity_type) == activity_type_from_name(activity_type@)
            &&& flexible_date(date@) == Some(final(activity).date@)
            &&& final(activity).content == content
            &&& final(activity).people == people->0
        },
{
    match activity.update(Some(name), Some(activity_type), Some(date), Some(content), people) {
        Ok(()) => Ok(()),
        Err(_) => Err(entity_error(1, "Activity")),
    }
}

/// The variables of the editor template for a reminder.
pub open spec fn reminder_vars(
    rem: Reminder,
    name: Option<String>,
    date: Option<String>,
    description: Option<String>,
    recurring: Option<String>,
) -> Seq<(Seq<char>, Seq<char>)> {
    seq![
        ("date"@, given_or(date, iso_date_text(rem.date@.0, rem.date@.1, rem.date@.2))),
        ("name"@, given_or(name, rem.name@)),
        ("description"@, given_or(description, match rem.description {
            Some(d) => d@,
            None => Seq::empty(),
        })),
        ("recurring_type"@, given_or(recurring, ascii_lower(recurring_name(rem.recurring)))),
        ("people"@, join_with(people_names(rem.people@), ","@)),
    ]
}

/// The text the editor opens for a reminder: each field as given on the
/// command line, otherwise as stored (the recurrence in lower case), and
/// the names of its people. The stored date, as shown, reads back as the
/// same date.
pub fn reminder_editor_text(
    reminder: &Reminder,
    name: Option<String>,
    date: Option<String>,
    description: Option<String>,
    recurring: Option<String>,
) -> (r: Result<String, CliError>)
    ensures
        template_result(
            r,
            REMINDER_TEMPLATE@,
            reminder_vars(*reminder, name, date, description, recurring),
            "Reminder"@,
        ),
        ({
            let v = reminder_vars(*reminder, name, date, description, recurring);
            r matches Ok(t) && t@ == reminder_form(v[1].1, v[0].1, v[3].1, v[2].1, v[4].1)
        }),
        flexible_date(iso_date_text(reminder.date@.0, reminder.date@.1, reminder.date@.2)) == Some(reminder.date@),
{
    let ghost expected = reminder_vars(*reminder, name, date, description, recurring);
    let stored_date = reminder.date.to_iso_string();
    let stored_description = match &reminder.description {
        Some(d) => string_of(d.as_str()),
        None => String::new(),
    };
    let stored_recurring = to_lowercase_ascii(reminder.recurring.as_ref());
    let people = join_people_names(&reminder.people, ",");
    let mut vars: Vec<(String, String)> = Vec::new();
    vars.push(var("date", given_or_text(date, stored_date.as_str())));
    vars.push(var("name", given_or_text(name, reminder.name.as_str())));
    vars.push(var("description", given_or_text(description, stored_description.as_str())));
    vars.push(var("recurring_type", given_or_text(recurring, stored_recurring.as_str())));
    vars.push(var("people", people));
    assert(pair_seqs(vars@) =~= expected);
    proof {
        lemma_reminder_template();
        lemma_variable_names();
        reveal_with_fuel(var_map, 6);
        let m = var_map(expected);
        assert(m.contains_key("date"@) && m["date"@] == expected[0].1);
        assert(m.contains_key("name"@) && m["name"@] == expected[1].1);
        assert(m.contains_key("description"@) && m["description"@] == expected[2].1);
        assert(m.contains_key("recurring_type"@) && m["recurring_type"@] == expected[3].1);
        assert(m.contains_key("people"@) && m["people"@] == expected[4].1);
        lemma_reminder_fill(m);
    }
    fill_or_error(REMINDER_TEMPLATE, vars, "Reminder")
}

/// Reads an edited reminder: name, date, recurrence, description and the
/// names of its people. A text that does not read as a reminder, or one
/// without a date, recurrence or description (checked in that order),
/// gives an error.
pub fn read_reminder_edit(edited: &str) -> (r: Result<(String, String, String, String, Vec<String>), CliError>)
    ensures
        ({
            let st = reminder_editor_fold(lines_of(edited@));
            if st.error {
                r is Err && is_editor_parse(r->Err_0, "Reminder"@)
            } else if st.date is None {
                r is Err && is_missing(r->Err_0, "reminder"@, "date"@)
            } else if st.recurring_type is None {
                r is Err && is_missing(r->Err_0, "reminder"@, "recurring type"@)
            } else if st.description is None {
                r is Err && is_missing(r->Err_0, "reminder"@, "description"@)
            } else {
                r matches Ok(t) && t.0@ == st.name && t.1@ == st.date->0 && t.2@
                    == st.recurring_type->0 && t.3@ == st.description->0 && string_seqs(t.4@)
                    == st.people
            }
        }),
{
    let data = match Reminder::parse_from_editor(edited) {
        Ok(data) => data,
        Err(_) => {
            return Err(entity_error(0, "Reminder"));
        },
    };
    let date = match data.date {
        Some(d) => d,
        None => {
            return Err(missing_field("reminder", "date"));
        },
    };
    let recurring = match data.recurring_type {
        Some(r) => r,
        None => {
            return Err(missing_field("reminder", "recurring type"));
        },
    };
    let description = match data.description {
        Some(d) => d,
        None => {
            return Err(missing_field("reminder", "description"));
        },
    };
    Ok((data.name, date, recurring, description, data.people))
}

/// Changes a reminder to the edited name, date, description and
/// recurrence, and to the people found for the edited names (`None` when
/// that lookup failed). A date or recurrence that cannot be read, or a
/// failed lookup, gives an error that names the reminder entity.
pub fn apply_reminder_edit(
    reminder: &mut Reminder,
    name: String,
    date: String,
    recurring: String,
    description: String,
    people: Option<Vec<Person>>,
) -> (r: Result<(), CliError>)
    ensures
        final(reminder).id == old(reminder).id,
        final(reminder).name == name,
        (flexible_date(date@) is Some && recurring_from_cli_name(recurring@) is Some && people is Some)
            <==> r is Ok,
        r is Err ==> is_edit_error(r->Err_0, "Reminder"@),
        r is Ok ==> {
            &&& flexible_date(date@) == Some(final(reminder).date@)
            &&& final(reminder).description == Some(description)
            &&& Some(final(reminder).recurring) == recurring_from_cli_name(recurring@)
            &&& final(reminder).people == people->0
        },
{
    match reminder.update(Some(name), Some(date), Some(description), Some(recurring), people) {
        Ok(()) => Ok(()),
        Err(_) => Err(entity_error(1, "Reminder")),
    }
}

/// The variables of the editor template for a note.
pub open spec fn note_vars(n: Note, date: Option<String>, content: Option<String>) -> Seq<
    (Seq<char>, Seq<char>),
> {
    seq![
        ("date"@, given_or(date, iso_date_text(n.date@.0, n.date@.1, n.date@.2))),
        ("content"@, given_or(content, n.content@)),
        ("people"@, join_with(people_names(n.people@), ","@)),
    ]
}

/// The text the editor opens for a note: date and content as given on the
/// command line, otherwise as stored, and the names of its people. The
/// stored date, as shown, reads back as the same date.
pub fn note_editor_text(note: &Note, date: Option<String>, content: Option<String>) -> (r: Result<
    String,
    CliError,
>)
    ensures
        template_result(r, NOTE_TEMPLATE@, note_vars(*note, date, content), NOTE_TEMPLATE@),
        ({
            let v = note_vars(*note, date, content);
            r matches Ok(t) && t@ == note_form(v[0].1, v[1].1, v[2].1)
        }),
        flexible_date(iso_date_text(note.date@.0, note.date@.1, note.date@.2)) == Some(note.date@),
{
    let ghost expected = note_vars(*note, date, content);
    let stored_date = note.date.to_iso_string();
    let people = join_people_names(&note.people, ",");
    let mut vars: Vec<(String, String)> = Vec::new();
    vars.push(var("date", given_or_text(date, stored_date.as_str())));
    vars.push(var("content", given_or_text(content, note.content.as_str())));
    vars.push(var("people", people));
    assert(pair_seqs(vars@) =~= expected);
    proof {
        lemma_note_template();
        lemma_variable_names();
        reveal_with_fuel(var_map, 4);
        let m = var_map(expected);
        assert(m.contains_key("date"@) && m["date"@] == expected[0].1);
        assert(m.contains_key("content"@) && m["content"@] == expected[1].1);
        assert(m.contains_key("people"@) && m["people"@] == expected[2].1);
        lemma_note_fill(m);
    }
    fill_or_error(NOTE_TEMPLATE, vars, NOTE_TEMPLATE)
}

/// Reads an edited note: date, content and the names of its people.
pub fn read_note_edit(edited: &str) -> (r: Result<(String, String, Vec<String>), CliError>)
    ensures
        ({
            let st = note_editor_fold(lines_of(edited@));
            if st.error {
                r is Err && is_editor_parse(r->Err_0, "Note"@)
            } else {
                r matches Ok(t) && t.0@ == st.date && t.1@ == st.content && string_seqs(t.2@)
                    == st.people
            }
        }),
{
    match Note::parse_from_editor(edited) {
        Ok(fields) => Ok(fields),
        Err(_) => Err(entity_error(0, "Note")),
    }
}

/// Changes a note to the edited date and content, and to the people found
/// for the edited names (`None` when that lookup failed). A date that
/// cannot be read, or a failed lookup, gives an error that names the note
/// entity.
pub fn apply_note_edit(note: &mut Note, date: String, content: String, people: Option<Vec<Person>>) -> (r:
    Result<(), CliError>)
    ensures
        final(note).id == old(note).id,
        (flexible_date(date@) is Some && people is Some) <==> r is Ok,
        r is Err ==> is_edit_error(r->Err_0, "Note"@),
        r is Ok ==> {
            &&& flexible_date(date@) == Some(final(note).date@)
            &&& final(note).content == content
            &&& final(note).people == people->0
        },
{
    match note.update(Some(date), Some(content), people) {
        Ok(()) => Ok(()),
        Err(_) => Err(entity_error(1, "Note")),
    }
}

} // verus!
