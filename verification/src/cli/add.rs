//! Adding an entity: what the command-line arguments or the edited text
//! make of it.
use vstd::prelude::*;

use crate::date::{chrono_ymd, flexible_date, Date, DateParseError};
use crate::entities::activity::{Activity, ActivityType, ACTIVITY_TEMPLATE};
use crate::entities::note::{Note, NOTE_TEMPLATE};
use crate::entities::reminder::{recurring_from_cli_name, RecurringType, Reminder, REMINDER_TEMPLATE};
use crate::entities::person::{
    contact_kind_from_tag, contact_views, nested_seqs, splits_complete, new_contact_views, ContactInfo,
    ContactInfoKind, ContactInfoType, EditorData, Person, PERSON_TEMPLATE,
};
use crate::helpers::{
    activity_type_from_name, get_activity_type, kind_from_tag, parse_from_str_md,
    parse_from_str_ymd, ActivityVars,
};
use crate::forms::{
    activity_form, lemma_activity_fill, lemma_activity_template, lemma_note_template,
    lemma_note_unfilled, lemma_person_template, lemma_person_unfilled, lemma_reminder_fill,
    lemma_reminder_template, lemma_variable_names, reminder_form,
};
use crate::template::{fill_template, filled_is, pair_seqs, strfmt_text, var_map};
use crate::text::{join_strings, join_with, push_char, push_str, split_chars, string_of, string_seqs};
use crate::CliError;
use crate::properties::contacts_each_of_its_tag;

verus! {

/// What can go wrong while reading a new entity.
#[derive(Debug)]
pub enum ParseError {
    BirthdayParseError { birthday: String },
    ContactInfoParseError { contact_info: String },
    ActivityTypeParseError { activity_type: String },
    DateParseError { date: String },
}

/// The text of an optional argument, empty when it is missing.
pub open spec fn arg_text(o: Option<String>) -> Seq<char> {
    match o {
        Some(s) => s@,
        None => Seq::empty(),
    }
}

fn arg_string(o: &Option<String>) -> (s: String)
    ensures
        s@ == arg_text(*o),
{
    match o {
        Some(t) => string_of(t.as_str()),
        None => String::new(),
    }
}

/// The texts of an optional list of arguments, none when it is missing.
pub open spec fn args_texts(o: Option<Vec<String>>) -> Seq<Seq<char>> {
    match o {
        Some(v) => string_seqs(v@),
        None => Seq::empty(),
    }
}

fn joined_args(o: &Option<Vec<String>>) -> (s: String)
    ensures
        s@ == join_with(args_texts(*o), ","@),
{
    match o {
        Some(v) => join_strings(v, ","),
        None => String::new(),
    }
}

/// A template variable: its name and value.
fn var(name: &str, value: String) -> (p: (String, String))
    ensures
        p.0@ == name@,
        p.1 == value,
{
    (string_of(name), value)
}

/// The variables of the editor template for a new person.
pub open spec fn new_person_vars(
    name: Option<String>,
    birthday: Option<String>,
    contact_info: Option<Vec<String>>,
) -> Seq<(Seq<char>, Seq<char>)> {
    seq![
        ("name"@, arg_text(name)),
        ("birthday"@, arg_text(birthday)),
        ("contact_info"@, join_with(args_texts(contact_info), ","@)),
    ]
}

/// The text the editor opens for a new person: the arguments given, the
/// contact infos comma-separated; `None` when strfmt cannot fill the
/// template, which is always the case: the template also names activities
/// and reminders, which a new person does not give.
pub fn person_template(
    name: &Option<String>,
    birthday: &Option<String>,
    contact_info: &Option<Vec<String>>,
) -> (r: Option<String>)
    ensures
        filled_is(r, strfmt_text(PERSON_TEMPLATE@, new_person_vars(*name, *birthday, *contact_info))),
        r is None,
{
    let mut vars: Vec<(String, String)> = Vec::new();
    vars.push(var("name", arg_string(name)));
    vars.push(var("birthday", arg_string(birthday)));
    vars.push(var("contact_info", joined_args(contact_info)));
    assert(pair_seqs(vars@) =~= new_person_vars(*name, *birthday, *contact_info));
    proof {
        lemma_person_template();
        lemma_variable_names();
        reveal_with_fuel(var_map, 4);
        lemma_person_unfilled(var_map(pair_seqs(vars@)));
    }
    fill_template(PERSON_TEMPLATE, &vars)
}

/// The name of a new person: the edited one when the editor was used.
pub open spec fn new_person_name(name: Option<String>, edited: Option<EditorData>) -> String {
    match edited {
        Some(d) => d.name,
        None => name->0,
    }
}

/// The birthday text of a new person: the edited one when the editor was
/// used, otherwise the argument.
pub open spec fn new_person_birthday(birthday: Option<String>, edited: Option<EditorData>) -> Option<
    String,
> {
    match edited {
        Some(d) => d.birthday,
        None => birthday,
    }
}

/// The `type:value` texts of a new person's contact infos: the arguments
/// when the editor was not used, the edited ones when it was and no
/// argument was given, none otherwise.
pub open spec fn new_person_contacts(
    contact_info: Option<Vec<String>>,
    edited: Option<EditorData>,
) -> Seq<Seq<char>> {
    match contact_info {
        Some(v) => if edited is None {
            string_seqs(v@)
        } else {
            Seq::empty()
        },
        None => match edited {
            Some(d) => string_seqs(d.contact_info@),
            None => Seq::empty(),
        },
    }
}

/// Each contact info text split at its colons.
pub open spec fn colon_splits(texts: Seq<Seq<char>>) -> Seq<Seq<Seq<char>>> {
    texts.map_values(|s: Seq<char>| split_chars(s, ':'))
}

/// The (kind, value) of each split whose type is known, in order.
pub open spec fn known_contacts(splits: Seq<Seq<Seq<char>>>) -> Seq<(ContactInfoKind, Seq<char>)>
    decreases splits.len(),
{
    if splits.len() == 0 {
        Seq::empty()
    } else {
        let prev = known_contacts(splits.drop_last());
        match contact_kind_from_tag(splits.last()[0]) {
            Some(k) => prev.push((k, splits.last()[1])),
            None => prev,
        }
    }
}

/// Each split whose type is unknown, written back as `type:value`, in order.
pub open spec fn unknown_contacts(splits: Seq<Seq<Seq<char>>>) -> Seq<Seq<char>>
    decreases splits.len(),
{
    if splits.len() == 0 {
        Seq::empty()
    } else {
        let prev = unknown_contacts(splits.drop_last());
        match contact_kind_from_tag(splits.last()[0]) {
            Some(_) => prev,
            None => prev.push(splits.last()[0] + seq![':'] + splits.last()[1]),
        }
    }
}

/// Whether a birthday text is given and reads neither as a full date nor
/// as a month and a day.
pub open spec fn birthday_unreadable(b: Option<String>) -> bool {
    match b {
        Some(t) => flexible_date(t@) is None,
        None => false,
    }
}

/// Whether a stored birthday is the date the birthday text stands for.
pub open spec fn birthday_read(stored: Option<Date>, b: Option<String>) -> bool {
    match b {
        Some(t) => stored matches Some(d) && flexible_date(t@) == Some(d@),
        None => stored is None,
    }
}

/// Whether every contact info text of a new person has a type and a value
/// after its colon, which reading them needs.
pub fn person_contacts_complete(contact_info: &Option<Vec<String>>, edited: &Option<EditorData>) -> (b:
    bool)
    ensures
        b == splits_complete(colon_splits(new_person_contacts(*contact_info, *edited))),
{
    let ghost texts = new_person_contacts(*contact_info, *edited);
    let list: &Vec<String> = match contact_info {
        Some(v) => {
            if edited.is_some() {
                return true;
            }
            v
        },
        None => match edited {
            Some(d) => &d.contact_info,
            None => {
                return true;
            },
        },
    };
    assert(string_seqs(list@) == texts);
    let mut i: usize = 0;
    while i < list.len()
        invariant
            0 <= i <= list@.len(),
            string_seqs(list@) == texts,
            texts == new_person_contacts(*contact_info, *edited),
            forall|j: int| 0 <= j < i ==> #[trigger] colon_splits(texts)[j].len() >= 2,
        decreases list@.len() - i,
    {
        let parts = crate::text::split_str(list[i].as_str(), ':');
        assert(string_seqs(parts@) == colon_splits(texts)[i as int]);
        if parts.len() < 2 {
            assert(colon_splits(texts).len() == list@.len());
            assert(!(colon_splits(texts)[i as int].len() >= 2));
            return false;
        }
        i = i + 1;
    }
    true
}

/// The new person that the arguments, or the edited text when the editor
/// was used (exactly when no name was given), describe: its name, its
/// birthday read as a full date or else as a month and a day, and its
/// contact infos with id 0 for each `type:value` of a known type. A
/// birthday that cannot be read gives an error that quotes it; otherwise
/// contact infos of unknown types give an error that lists them all,
/// comma-separated.
pub fn person(
    name: Option<String>,
    birthday: Option<String>,
    contact_info: Option<Vec<String>>,
    edited: Option<EditorData>,
) -> (r: Result<Person, ParseError>)
    requires
        name is None <==> edited is Some,
        splits_complete(colon_splits(new_person_contacts(contact_info, edited))),
    ensures
        ({
            let b = new_person_birthday(birthday, edited);
            let splits = colon_splits(new_person_contacts(contact_info, edited));
            if birthday_unreadable(b) {
                r matches Err(ParseError::BirthdayParseError { birthday: t }) && Some(t) == b
            } else if unknown_contacts(splits).len() > 0 {
                r matches Err(ParseError::ContactInfoParseError { contact_info: t }) && t@
                    == join_with(unknown_contacts(splits), ","@)
            } else {
                r matches Ok(p) && p.id == 0 && p.name == new_person_name(name, edited)
                    && birthday_read(p.birthday, b) && contact_views(p.contact_info@)
                    == new_contact_views(0, known_contacts(splits)) && p.contact_info@.len()
                    == splits.len() && (forall|i: int|
                    0 <= i < splits.len() ==> (#[trigger] p.contact_info@[i]).contact_info_type.kind()
                        == contact_kind_from_tag(splits[i][0])->0
                        && p.contact_info@[i].contact_info_type.value() == splits[i][1])
                    && p.activities@.len() == 0 && p.reminders@.len() == 0 && p.notes@.len() == 0
            }
        }),
{
    let ghost texts = new_person_contacts(contact_info, edited);
    let editor = edited.is_some();
    let mut name_str = String::new();
    let mut birthday_str: Option<String> = None;
    let mut contact_info_vec: Vec<String> = Vec::new();
    match edited {
        Some(d) => {
            name_str = d.name;
            birthday_str = d.birthday;
            contact_info_vec = d.contact_info;
        },
        None => {
            if let Some(n) = name {
                name_str = n;
            }
            birthday_str = birthday;
        },
    }
    let mut birthday_obj: Option<Date> = None;
    if let Some(b) = birthday_str {
        match parse_from_str_ymd(b.as_str()) {
            Ok(date) => {
                birthday_obj = Some(date);
            },
            Err(_) => match parse_from_str_md(b.as_str()) {
                Ok(date) => {
                    birthday_obj = Some(date);
                },
                Err(_) => {
                    return Err(ParseError::BirthdayParseError { birthday: b });
                },
            },
        }
    }
    let mut splits: Vec<Vec<String>> = Vec::new();
    match contact_info {
        Some(mut v) => {
            if !editor {
                ContactInfo::populate_splits(&mut splits, v.as_mut_slice());
            }
        },
        None => {
            if editor {
                ContactInfo::populate_splits(&mut splits, contact_info_vec.as_mut_slice());
            }
        },
    }
    let ghost all = nested_seqs(splits@);
    assert(all =~= colon_splits(texts));
    let mut contacts: Vec<ContactInfo> = Vec::new();
    let mut invalid: Vec<String> = Vec::new();
    let mut i: usize = 0;
    while i < splits.len()
        invariant
            0 <= i <= splits@.len(),
            all == nested_seqs(splits@),
            splits_complete(all),
            contact_views(contacts@) == new_contact_views(0, known_contacts(all.take(i as int))),
            string_seqs(invalid@) == unknown_contacts(all.take(i as int)),
        decreases splits@.len() - i,
    {
        assert(all.take(i + 1).drop_last() =~= all.take(i as int));
        assert(all.take(i + 1).last() == all[i as int]);
        let split = &splits[i];
        assert(split@.len() >= 2) by {
            assert(all[i as int].len() >= 2);
        }
        match kind_from_tag(split[0].as_str()) {
            Some(kind) => {
                let ghost before = contact_views(contacts@);
                let t = ContactInfoType::of_kind(kind, split[1].clone());
                contacts.push(ContactInfo::new(0, 0, t));
                assert(contact_views(contacts@) =~= before.push(
                    (0u64, 0u64, kind, split@[1]@, split@[1]@),
                ));
                proof {
                    let prev = known_contacts(all.take(i as int));
                    assert(new_contact_views(0, prev.push((kind, split@[1]@))) =~= new_contact_views(
                        0,
                        prev,
                    ).push((0u64, 0u64, kind, split@[1]@, split@[1]@)));
                }
            },
            None => {
                let mut text = String::new();
                push_str(&mut text, split[0].as_str());
                push_char(&mut text, ':');
                push_str(&mut text, split[1].as_str());
                let ghost before = string_seqs(invalid@);
                assert(text@ =~= split@[0]@ + seq![':'] + split@[1]@);
                invalid.push(text);
                assert(string_seqs(invalid@) =~= before.push(split@[0]@ + seq![':'] + split@[1]@));
            },
        }
        i = i + 1;
    }
    assert(all.take(splits@.len() as int) =~= all);
    if invalid.len() > 0 {
        return Err(ParseError::ContactInfoParseError { contact_info: join_strings(&invalid, ",") });
    }
    proof {
        contacts_each_of_its_tag(all);
        assert forall|k: int| 0 <= k < all.len() implies (#[trigger] contacts@[k]).contact_info_type.kind()
            == contact_kind_from_tag(all[k][0])->0 && contacts@[k].contact_info_type.value()
            == all[k][1] by {
            assert(contact_views(contacts@)[k] == contacts@[k]@);
            assert(new_contact_views(0, known_contacts(all))[k] == (
                0u64,
                0u64,
                known_contacts(all)[k].0,
                known_contacts(all)[k].1,
                known_contacts(all)[k].1,
            ));
        }
    }
    Ok(Person::new(0, name_str, birthday_obj, contacts, Vec::new(), Vec::new()))
}

/// The variables of the editor template for a new activity.
pub open spec fn new_activity_vars(
    name: Option<String>,
    activity_type: Option<String>,
    date: Option<String>,
    content: Option<String>,
    people: Seq<String>,
) -> Seq<(Seq<char>, Seq<char>)> {
    seq![
        ("name"@, arg_text(name)),
        ("date"@, arg_text(date)),
        ("activity_type"@, arg_text(activity_type)),
        ("content"@, arg_text(content)),
        ("people"@, join_with(string_seqs(people), ","@)),
    ]
}

/// The text the editor opens for a new activity: the arguments given and
/// the names of its people, comma-separated; `None` when strfmt cannot fill
/// the template.
pub fn activity_template(
    name: &Option<String>,
    activity_type: &Option<String>,
    date: &Option<String>,
    content: &Option<String>,
    people: &Vec<String>,
) -> (r: Option<String>)
    ensures
        filled_is(
            r,
            strfmt_text(
                ACTIVITY_TEMPLATE@,
                new_activity_vars(*name, *activity_type, *date, *content, people@),
            ),
        ),
        r matches Some(t) && t@ == activity_form(
            arg_text(*name),
            arg_text(*date),
            arg_text(*activity_type),
            arg_text(*content),
            join_with(string_seqs(people@), ","@),
        ),
{
    let mut vars: Vec<(String, String)> = Vec::new();
    vars.push(var("name", arg_string(name)));
    vars.push(var("date", arg_string(date)));
    vars.push(var("activity_type", arg_string(activity_type)));
    vars.push(var("content", arg_string(content)));
    vars.push(var("people", join_strings(people, ",")));
    assert(pair_seqs(vars@) =~= new_activity_vars(*name, *activity_type, *date, *content, people@));
    proof {
        lemma_activity_template();
        lemma_variable_names();
        reveal_with_fuel(var_map, 6);
        let m = var_map(pair_seqs(vars@));
        assert(m.contains_key("name"@) && m["name"@] == arg_text(*name));
        assert(m.contains_key("date"@) && m["date"@] == arg_text(*date));
        assert(m.contains_key("activity_type"@) && m["activity_type"@] == arg_text(*activity_type));
        assert(m.contains_key("content"@) && m["content"@] == arg_text(*content));
        assert(m.contains_key("people"@));
        lemma_activity_fill(m);
    }
    fill_template(ACTIVITY_TEMPLATE, &vars)
}

/// Whether a new activity is written in the editor: when its name, type,
/// date or content is not given.
pub fn activity_needs_editor(
    name: &Option<String>,
    activity_type: &Option<String>,
    date: &Option<String>,
    content: &Option<String>,
) -> (b: bool)
    ensures
        b == (name is None || activity_type is None || date is None || content is None),
{
    name.is_none() || activity_type.is_none() || date.is_none() || content.is_none()
}

/// The new activity, with id 0, that the fields describe, with the people
/// found for its names: its type is `phone`, `in_person` or `online`, its
/// date a full date. An unknown type, then a date that cannot be read,
/// gives an error that quotes it.
pub fn activity(vars: ActivityVars, people: Vec<Person>) -> (r: Result<Activity, ParseError>)
    ensures
        match activity_type_from_name(vars.activity_type@) {
            None => r matches Err(ParseError::ActivityTypeParseError { activity_type: t }) && t
                == vars.activity_type,
            Some(kind) => match chrono_ymd(vars.date@) {
                Err(_) => r matches Err(ParseError::DateParseError { date: d }) && d == vars.date,
                Ok(ymd) => r matches Ok(a) && a.id == 0 && a.name == vars.name && a.activity_type
                    == kind && a.date@ == ymd && a.content == vars.content && a.people == people,
            },
        },
{
    let activity_type = match get_activity_type(vars.activity_type) {
        Ok(t) => t,
        Err(CliError::ActivityTypeParse { activity_type }) => {
            return Err(ParseError::ActivityTypeParseError { activity_type });
        },
        Err(_) => {
            return Err(ParseError::ActivityTypeParseError { activity_type: String::new() });
        },
    };
    let date_obj = match parse_from_str_ymd(vars.date.as_str()) {
        Ok(date) => date,
        Err(_) => {
            return Err(ParseError::DateParseError { date: vars.date });
        },
    };
    Ok(Activity::new(0, vars.name, activity_type, date_obj, vars.content, people))
}

/// The variables of the editor template for a new reminder.
pub open spec fn new_reminder_vars(
    name: Option<String>,
    date: Option<String>,
    recurring: Option<String>,
    description: Option<String>,
    people: Seq<String>,
) -> Seq<(Seq<char>, Seq<char>)> {
    seq![
        ("name"@, arg_text(name)),
        ("date"@, arg_text(date)),
        ("recurring_type"@, arg_text(recurring)),
        ("description"@, arg_text(description)),
        ("people"@, join_with(string_seqs(people), ","@)),
    ]
}

/// The text the editor opens for a new reminder: the arguments given and
/// the names of its people, comma-separated; `None` when strfmt cannot fill
/// the template.
pub fn reminder_template(
    name: &Option<String>,
    date: &Option<String>,
    recurring: &Option<String>,
    description: &Option<String>,
    people: &Vec<String>,
) -> (r: Option<String>)
    ensures
        filled_is(
            r,
            strfmt_text(
                REMINDER_TEMPLATE@,
                new_reminder_vars(*name, *date, *recurring, *description, people@),
            ),
        ),
        r matches Some(t) && t@ == reminder_form(
            arg_text(*name),
            arg_text(*date),
            arg_text(*recurring),
            arg_text(*description),
            join_with(string_seqs(people@), ","@),
        ),
{
    let mut vars: Vec<(String, String)> = Vec::new();
    vars.push(var("name", arg_string(name)));
    vars.push(var("date", arg_string(date)));
    vars.push(var("recurring_type", arg_string(recurring)));
    vars.push(var("description", arg_string(description)));
    vars.push(var("people", join_strings(people, ",")));
    assert(pair_seqs(vars@) =~= new_reminder_vars(*name, *date, *recurring, *description, people@));
    proof {
        lemma_reminder_template();
        lemma_variable_names();
        reveal_with_fuel(var_map, 6);
        let m = var_map(pair_seqs(vars@));
        assert(m.contains_key("name"@) && m["name"@] == arg_text(*name));
        assert(m.contains_key("date"@) && m["date"@] == arg_text(*date));
        assert(m.contains_key("recurring_type"@) && m["recurring_type"@] == arg_text(*recurring));
        assert(m.contains_key("description"@) && m["description"@] == arg_text(*description));
        assert(m.contains_key("people"@));
        lemma_reminder_fill(m);
    }
    fill_template(REMINDER_TEMPLATE, &vars)
}

/// The new reminder, with id 0, that the fields describe, with the people
/// found for its names: its recurrence is one of `daily`, `weekly`,
/// `fortnightly`, `monthly`, `quarterly`, `biannual`, `yearly` and
/// `onetime`, its date a full date. An unknown recurrence, then a date that
/// cannot be read, gives an error that quotes it.
pub fn reminder(
    name: String,
    date: String,
    recurring: String,
    description: String,
    people: Vec<Person>,
) -> (r: Result<Reminder, CliError>)
    ensures
        match recurring_from_cli_name(recurring@) {
            None => r matches Err(CliError::RecurringTypeParse { recurring_type: t }) && t
                == recurring,
            Some(kind) => match chrono_ymd(date@) {
                Err(_) => r matches Err(CliError::DateParse { date: d }) && d == date,
                Ok(ymd) => r matches Ok(rem) && rem.id == 0 && rem.name == name && rem.date@
                    == ymd && rem.description == Some(description) && rem.recurring == kind
                    && rem.people == people,
            },
        },
{
    let recurring_type = match RecurringType::from_cli_name(recurring.as_str()) {
        Some(t) => t,
        None => {
            return Err(CliError::RecurringTypeParse { recurring_type: recurring });
        },
    };
    let date_obj = match parse_from_str_ymd(date.as_str()) {
        Ok(d) => d,
        Err(_) => {
            return Err(CliError::DateParse { date });
        },
    };
    Ok(Reminder::new(0, name, date_obj, Some(description), recurring_type, people))
}

/// The variables of the editor template for a new note.
pub open spec fn new_note_vars(content: Option<String>, people: Seq<String>) -> Seq<
    (Seq<char>, Seq<char>),
> {
    seq![("content"@, arg_text(content)), ("people"@, join_with(string_seqs(people), ","@))]
}

/// The text the editor opens for a new note: the content given and the
/// names of its people, comma-separated; `None` when strfmt cannot fill the
/// template, which is always the case: the template also names the date,
/// which a new note does not give.
pub fn note_template(content: &Option<String>, people: &Vec<String>) -> (r: Option<String>)
    ensures
        filled_is(r, strfmt_text(NOTE_TEMPLATE@, new_note_vars(*content, people@))),
        r is None,
{
    let mut vars: Vec<(String, String)> = Vec::new();
    vars.push(var("content", arg_string(content)));
    vars.push(var("people", join_strings(people, ",")));
    assert(pair_seqs(vars@) =~= new_note_vars(*content, people@));
    proof {
        lemma_note_template();
        lemma_variable_names();
        reveal_with_fuel(var_map, 3);
        lemma_note_unfilled(var_map(pair_seqs(vars@)));
    }
    fill_template(NOTE_TEMPLATE, &vars)
}

/// The new note, with id 0, of the given date (a full date), content and
/// people; a date that cannot be read gives chrono's error.
pub fn note(date: &str, content: String, people: Vec<Person>) -> (r: Result<Note, DateParseError>)
    ensures
        match chrono_ymd(date@) {
            Err(e) => r == Err::<Note, DateParseError>(e),
            Ok(ymd) => r matches Ok(n) && n.id == 0 && n.date@ == ymd && n.content == content
                && n.people == people,
        },
{
    match parse_from_str_ymd(date) {
        Ok(d) => Ok(Note::new(0, d, content, people)),
        Err(e) => Err(e),
    }
}

} // verus!
