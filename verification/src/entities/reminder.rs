//! Reminders about people.
use vstd::prelude::*;

use crate::date::{chrono_ymd, date_before, flexible_date, iso_date_text, parse_flexible, Date};
use crate::helpers::stored_date;
use crate::entities::activity::opt_text;
use crate::entities::person::{people_lines, push_people_lines, Person};
use crate::entities::Entity;
use crate::text::{
    decimal, push_decimal, push_str, char_seqs, lines_of, lines_vec, split_chars, split_to_strings, starts_with, starts_with_vec,
    str_eq, string_seqs, strip_prefix_text, to_chars, trim_start_matches, trim_start_matches_vec,
};
use crate::CliError;

verus! {

/// What the editor gave back for a reminder.
pub struct ParseReminderFromEditorData {
    pub name: String,
    pub date: Option<String>,
    pub recurring_type: Option<String>,
    pub description: Option<String>,
    pub people: Vec<String>,
}

/// The text the editor opens for a reminder.
pub const REMINDER_TEMPLATE: &'static str = "Name: {name}\nDate: {date}\nRecurring: {recurring_type}\nDescription: {description}\nPeople: {people}\n";

/// Something to remember on a date, possibly again and again.
#[derive(Debug, PartialEq)]
pub struct Reminder {
    pub id: u64,
    pub name: String,
    pub date: Date,
    pub description: Option<String>,
    pub recurring: RecurringType,
    pub people: Vec<Person>,
}

impl Entity for Reminder {
    open spec fn spec_id(&self) -> u64 {
        self.id
    }

    fn get_id(&self) -> (id: u64) {
        self.id
    }
}

/// How often a reminder comes back.
#[derive(Debug, Clone, Copy, PartialEq, Eq)]
pub enum RecurringType {
    OneTime,
    Daily,
    Weekly,
    Fortnightly,
    Monthly,
    Quarterly,
    Biannual,
    Yearly,
}

/// The stored name of a recurrence.
pub open spec fn recurring_name(t: RecurringType) -> Seq<char> {
    match t {
        RecurringType::OneTime => "OneTime"@,
        RecurringType::Daily => "Daily"@,
        RecurringType::Weekly => "Weekly"@,
        RecurringType::Fortnightly => "Fortnightly"@,
        RecurringType::Monthly => "Monthly"@,
        RecurringType::Quarterly => "Quarterly"@,
        RecurringType::Biannual => "Biannual"@,
        RecurringType::Yearly => "Yearly"@,
    }
}

/// The recurrence whose stored name is `name`.
pub open spec fn recurring_from_stored_name(name: Seq<char>) -> Option<RecurringType> {
    if name == "OneTime"@ {
        Some(RecurringType::OneTime)
    } else if name == "Daily"@ {
        Some(RecurringType::Daily)
    } else if name == "Weekly"@ {
        Some(RecurringType::Weekly)
    } else if name == "Fortnightly"@ {
        Some(RecurringType::Fortnightly)
    } else if name == "Monthly"@ {
        Some(RecurringType::Monthly)
    } else if name == "Quarterly"@ {
        Some(RecurringType::Quarterly)
    } else if name == "Biannual"@ {
        Some(RecurringType::Biannual)
    } else if name == "Yearly"@ {
        Some(RecurringType::Yearly)
    } else {
        None
    }
}

/// The recurrence that a lower-case name on the command line stands for.
pub open spec fn recurring_from_cli_name(name: Seq<char>) -> Option<RecurringType> {
    if name == "daily"@ {
        Some(RecurringType::Daily)
    } else if name == "weekly"@ {
        Some(RecurringType::Weekly)
    } else if name == "fortnightly"@ {
        Some(RecurringType::Fortnightly)
    } else if name == "monthly"@ {
        Some(RecurringType::Monthly)
    } else if name == "quarterly"@ {
        Some(RecurringType::Quarterly)
    } else if name == "biannual"@ {
        Some(RecurringType::Biannual)
    } else if name == "yearly"@ {
        Some(RecurringType::Yearly)
    } else if name == "onetime"@ {
        Some(RecurringType::OneTime)
    } else {
        None
    }
}

impl RecurringType {
    /// The name of the variant, as it is stored in the database.
    pub fn as_ref(&self) -> (s: &'static str)
        ensures
            s@ == recurring_name(*self),
    {
        match self {
            RecurringType::OneTime => "OneTime",
            RecurringType::Daily => "Daily",
            RecurringType::Weekly => "Weekly",
            RecurringType::Fortnightly => "Fortnightly",
            RecurringType::Monthly => "Monthly",
            RecurringType::Quarterly => "Quarterly",
            RecurringType::Biannual => "Biannual",
            RecurringType::Yearly => "Yearly",
        }
    }

    /// The variant with a stored name.
    pub fn from_str(name: &str) -> (r: Option<RecurringType>)
        ensures
            r == recurring_from_stored_name(name@),
    {
        if str_eq(name, "OneTime") {
            Some(RecurringType::OneTime)
        } else if str_eq(name, "Daily") {
            Some(RecurringType::Daily)
        } else if str_eq(name, "Weekly") {
            Some(RecurringType::Weekly)
        } else if str_eq(name, "Fortnightly") {
            Some(RecurringType::Fortnightly)
        } else if str_eq(name, "Monthly") {
            Some(RecurringType::Monthly)
        } else if str_eq(name, "Quarterly") {
            Some(RecurringType::Quarterly)
        } else if str_eq(name, "Biannual") {
            Some(RecurringType::Biannual)
        } else if str_eq(name, "Yearly") {
            Some(RecurringType::Yearly)
        } else {
            None
        }
    }

    /// The recurrence named on the command line.
    pub fn from_cli_name(name: &str) -> (r: Option<RecurringType>)
        ensures
            r == recurring_from_cli_name(name@),
    {
        if str_eq(name, "daily") {
            Some(RecurringType::Daily)
        } else if str_eq(name, "weekly") {
            Some(RecurringType::Weekly)
        } else if str_eq(name, "fortnightly") {
            Some(RecurringType::Fortnightly)
        } else if str_eq(name, "monthly") {
            Some(RecurringType::Monthly)
        } else if str_eq(name, "quarterly") {
            Some(RecurringType::Quarterly)
        } else if str_eq(name, "biannual") {
            Some(RecurringType::Biannual)
        } else if str_eq(name, "yearly") {
            Some(RecurringType::Yearly)
        } else if str_eq(name, "onetime") {
            Some(RecurringType::OneTime)
        } else {
            None
        }
    }
}

/// The fields read so far from an edited reminder text.
pub struct ReminderEditorFields {
    pub name: Seq<char>,
    pub date: Option<Seq<char>>,
    pub recurring_type: Option<Seq<char>>,
    pub description: Option<Seq<char>>,
    pub people: Seq<Seq<char>>,
    pub error: bool,
}

/// Nothing read yet.
pub open spec fn reminder_editor_start() -> ReminderEditorFields {
    ReminderEditorFields {
        name: Seq::empty(),
        date: None,
        recurring_type: None,
        description: None,
        people: Seq::empty(),
        error: false,
    }
}

/// What one line of an edited reminder text changes.
pub open spec fn reminder_editor_step(st: ReminderEditorFields, line: Seq<char>) -> ReminderEditorFields {
    if starts_with(line, "Name: "@) {
        ReminderEditorFields { name: trim_start_matches(line, "Name: "@), ..st }
    } else if starts_with(line, "Date: "@) {
        ReminderEditorFields { date: Some(trim_start_matches(line, "Date: "@)), ..st }
    } else if starts_with(line, "Recurring: "@) {
        ReminderEditorFields {
            recurring_type: Some(trim_start_matches(line, "Recurring: "@)),
            ..st
        }
    } else if starts_with(line, "Description: "@) {
        ReminderEditorFields {
            description: Some(trim_start_matches(line, "Description: "@)),
            ..st
        }
    } else if starts_with(line, "People: "@) {
        ReminderEditorFields {
            people: split_chars(trim_start_matches(line, "People: "@), ','),
            ..st
        }
    } else {
        ReminderEditorFields { error: true, ..st }
    }
}

/// The fields read from the given lines, in order.
pub open spec fn reminder_editor_fold(lines: Seq<Seq<char>>) -> ReminderEditorFields
    decreases lines.len(),
{
    if lines.len() == 0 {
        reminder_editor_start()
    } else {
        reminder_editor_step(reminder_editor_fold(lines.drop_last()), lines.last())
    }
}

/// Whether `d` holds the fields that were read.
pub open spec fn reminder_data_holds(d: ParseReminderFromEditorData, st: ReminderEditorFields) -> bool {
    &&& d.name@ == st.name
    &&& opt_text(d.date, st.date)
    &&& opt_text(d.recurring_type, st.recurring_type)
    &&& opt_text(d.description, st.description)
    &&& string_seqs(d.people@) == st.people
}

impl Reminder {
    /// A reminder with the given fields.
    pub fn new(
        id: u64,
        name: String,
        date: Date,
        description: Option<String>,
        recurring: RecurringType,
        people: Vec<Person>,
    ) -> (r: Reminder)
        ensures
            r.id == id,
            r.name == name,
            r.date == date,
            r.description == description,
            r.recurring == recurring,
            r.people == people,
    {
        Reminder { id, name, date, description, recurring, people }
    }

    /// Sets the name if one is given, the date if one is given (a full date,
    /// or a month and a day), the description (none if none is given), the
    /// recurrence (one time if none is given) and the people that the
    /// given names were found to be (`None` when that lookup failed). A date
    /// or recurrence that cannot be read, or a failed lookup, stops the
    /// update there with an error.
    pub fn update(
        &mut self,
        name: Option<String>,
        date: Option<String>,
        description: Option<String>,
        recurring: Option<String>,
        people: Option<Vec<Person>>,
    ) -> (r: Result<(), CliError>)
        ensures
            final(self).id == old(self).id,
            name matches Some(n) ==> final(self).name == n,
            name is None ==> final(self).name == old(self).name,
            // a date that cannot be read
            (date matches Some(d) && flexible_date(d@) is None) ==> {
                &&& r == Err::<(), CliError>(CliError::DateParse { date: date->0 })
                &&& final(self).date == old(self).date
                &&& final(self).description == old(self).description
                &&& final(self).recurring == old(self).recurring
                &&& final(self).people == old(self).people
            },
            date is None ==> final(self).date == old(self).date,
            (date matches Some(d) && flexible_date(d@) is Some) ==> flexible_date(date->0@) == Some(
                final(self).date@,
            ),
            (date matches Some(d) ==> flexible_date(d@) is Some) ==> {
                &&& final(self).description == description
                &&& match recurring {
                    Some(s) => match recurring_from_cli_name(s@) {
                        None => {
                            &&& r == Err::<(), CliError>(
                                CliError::RecurringTypeParse { recurring_type: recurring->0 },
                            )
                            &&& final(self).recurring == old(self).recurring
                            &&& final(self).people == old(self).people
                        },
                        Some(t) => final(self).recurring == t && update_people_result(
                            r,
                            final(self).people,
                            old(self).people,
                            people,
                        ),
                    },
                    None => final(self).recurring == RecurringType::OneTime && update_people_result(
                        r,
                        final(self).people,
                        old(self).people,
                        people,
                    ),
                }
            },
    {
        if let Some(name) = name {
            self.name = name;
        }
        if let Some(date) = date {
            match parse_flexible(date.as_str()) {
                Some(d) => {
                    self.date = d;
                },
                None => {
                    return Err(CliError::DateParse { date });
                },
            }
        }
        self.description = description;
        let recurring_type = match recurring {
            Some(recurring_type_str) => match RecurringType::from_cli_name(
                recurring_type_str.as_str(),
            ) {
                Some(t) => t,
                None => {
                    return Err(CliError::RecurringTypeParse { recurring_type: recurring_type_str });
                },
            },
            None => RecurringType::OneTime,
        };
        self.recurring = recurring_type;
        match people {
            Some(people) => {
                self.people = people;
            },
            None => {
                return Err(CliError::RecordParse { record: people_record() });
            },
        }
        Ok(())
    }

    /// Reads a reminder back from the text the editor returns: name, date,
    /// recurrence, description and the comma-separated names of the people,
    /// each on the line with its label. Any line without a label is a
    /// format error.
    pub fn parse_from_editor(content: &str) -> (r: Result<ParseReminderFromEditorData, CliError>)
        ensures
            ({
                let st = reminder_editor_fold(lines_of(content@));
                if st.error {
                    r matches Err(CliError::FormatError)
                } else {
                    r matches Ok(d) && reminder_data_holds(d, st)
                }
            }),
    {
        let chars = to_chars(content);
        let lines = lines_vec(&chars);
        let name_prefix = to_chars("Name: ");
        let date_prefix = to_chars("Date: ");
        let recurring_type_prefix = to_chars("Recurring: ");
        let description_prefix = to_chars("Description: ");
        let people_prefix = to_chars("People: ");
        let mut error = false;
        let mut name: String = String::new();
        let mut date: Option<String> = None;
        let mut recurring_type: Option<String> = None;
        let mut description: Option<String> = None;
        let mut people: Vec<String> = Vec::new();
        let ghost all = char_seqs(lines@);
        assert(all.take(0) =~= Seq::<Seq<char>>::empty());
        assert(string_seqs(people@) =~= Seq::<Seq<char>>::empty());
        let mut i: usize = 0;
        while i < lines.len()
            invariant
                0 <= i <= lines@.len(),
                all == char_seqs(lines@),
                name_prefix@ == "Name: "@,
                date_prefix@ == "Date: "@,
                recurring_type_prefix@ == "Recurring: "@,
                description_prefix@ == "Description: "@,
                people_prefix@ == "People: "@,
                ({
                    let st = reminder_editor_fold(all.take(i as int));
                    &&& error == st.error
                    &&& name@ == st.name
                    &&& opt_text(date, st.date)
                    &&& opt_text(recurring_type, st.recurring_type)
                    &&& opt_text(description, st.description)
                    &&& string_seqs(people@) == st.people
                }),
            decreases lines@.len() - i,
        {
            let line = &lines[i];
            assert(all.take(i + 1).drop_last() == all.take(i as int));
            assert(all[i as int] == line@);
            if starts_with_vec(line, &name_prefix) {
                name = strip_prefix_text(line, &name_prefix);
            } else if starts_with_vec(line, &date_prefix) {
                date = Some(strip_prefix_text(line, &date_prefix));
            } else if starts_with_vec(line, &recurring_type_prefix) {
                recurring_type = Some(strip_prefix_text(line, &recurring_type_prefix));
            } else if starts_with_vec(line, &description_prefix) {
                description = Some(strip_prefix_text(line, &description_prefix));
            } else if starts_with_vec(line, &people_prefix) {
                let text = trim_start_matches_vec(line, &people_prefix);
                people = split_to_strings(&text, ',');
            } else {
                error = true;
            }
            i = i + 1;
        }
        assert(all.take(lines@.len() as int) == all);
        if error {
            return Err(CliError::FormatError);
        }
        Ok(ParseReminderFromEditorData { name, date, recurring_type, description, people })
    }
}

/// The record named when the people of an entity cannot be found: `people`.
pub fn people_record() -> (s: String)
    ensures
        s@ == "people"@,
{
    let mut s = String::new();
    crate::text::push_str(&mut s, "people");
    s
}

/// The outcome of the last step of an update, setting the people found:
/// their list when the lookup worked, an error naming the `people` record
/// (and the people kept) when it failed.
pub open spec fn update_people_result(
    r: Result<(), CliError>,
    new_people: Vec<Person>,
    old_people: Vec<Person>,
    found: Option<Vec<Person>>,
) -> bool {
    match found {
        Some(p) => r is Ok && new_people == p,
        None => new_people == old_people && (r matches Err(CliError::RecordParse { record })
            && record@ == "people"@),
    }
}

/// A reminder as it is printed.
pub open spec fn reminder_text(r: Reminder) -> Seq<char> {
    "reminder id: "@ + decimal(r.id as nat) + "\nname: "@ + r.name@ + "\ndate: "@ + iso_date_text(
        r.date@.0,
        r.date@.1,
        r.date@.2,
    ) + "\ndescription: "@ + match r.description {
        Some(d) => d@,
        None => Seq::empty(),
    } + "\nrecurring type: "@ + recurring_name(r.recurring) + "\npeople:"@ + people_lines(r.people@)
        + "\n"@
}

impl Reminder {
    /// The reminder as it is printed: id, name, date, description,
    /// recurrence and one line per person.
    pub fn to_string(&self) -> (s: String)
        ensures
            s@ == reminder_text(*self),
    {
        let mut s = String::new();
        push_str(&mut s, "reminder id: ");
        push_decimal(&mut s, self.id);
        push_str(&mut s, "\nname: ");
        push_str(&mut s, self.name.as_str());
        push_str(&mut s, "\ndate: ");
        let date = self.date.to_iso_string();
        push_str(&mut s, date.as_str());
        push_str(&mut s, "\ndescription: ");
        match &self.description {
            Some(d) => push_str(&mut s, d.as_str()),
            None => {},
        }
        push_str(&mut s, "\nrecurring type: ");
        push_str(&mut s, self.recurring.as_ref());
        push_str(&mut s, "\npeople:");
        push_people_lines(&mut s, &self.people);
        push_str(&mut s, "\n");
        s
    }
}

/// Which reminders a search asks for.
#[derive(Debug, PartialEq, Eq)]
pub enum ReminderLookup {
    /// The reminders with this name, of this person if one is named.
    ByName(String, Option<String>),
    /// The reminders of the person with this name.
    ByPerson(String),
    /// The reminders whose description holds this text.
    ByDescription(String),
    /// No reminders at all.
    Nothing,
}

/// The reminders that are kept when past ones are left out unless asked
/// for: those after `today`.
pub open spec fn upcoming(rs: Seq<Reminder>, include_past: bool, today: (int, int, int)) -> Seq<Reminder>
    decreases rs.len(),
{
    if rs.len() == 0 {
        Seq::empty()
    } else if include_past || date_before(today, rs.last().date@) {
        upcoming(rs.drop_last(), include_past, today).push(rs.last())
    } else {
        upcoming(rs.drop_last(), include_past, today)
    }
}

impl Reminder {
    /// The reminder that a stored record describes: a missing description
    /// reads as the empty one, and a date that does not read as a full date
    /// as chrono's default date, 1970-01-01.
    pub fn build_from_sql(
        id: u64,
        name: String,
        date: String,
        description: Option<String>,
        recurring: RecurringType,
        people: Vec<Person>,
    ) -> (r: Reminder)
        ensures
            r.id == id,
            r.name == name,
            chrono_ymd(date@) matches Ok(t) ==> r.date@ == t,
            chrono_ymd(date@) is Err ==> r.date@ == (1970int, 1int, 1int),
            description matches Some(d) ==> r.description == Some(d),
            description is None ==> (r.description matches Some(d) && d@ == Seq::<char>::empty()),
            r.recurring == recurring,
            r.people == people,
    {
        let description = match description {
            Some(d) => d,
            None => String::new(),
        };
        Reminder::new(id, name, stored_date(date.as_str()), Some(description), recurring, people)
    }

    /// What a search for reminders looks up: by name (and person) when a
    /// name is given, otherwise by person when a person is named, otherwise
    /// by description when one is given, otherwise nothing.
    pub fn lookup(name: Option<String>, person: Option<String>, description: Option<String>) -> (q:
        ReminderLookup)
        ensures
            name matches Some(n) ==> q == ReminderLookup::ByName(n, person),
            name is None ==> (person matches Some(p) ==> q == ReminderLookup::ByPerson(p)),
            name is None ==> (person is None ==> (description matches Some(d) ==> q
                == ReminderLookup::ByDescription(d))),
            name is None && person is None && description is None ==> q == ReminderLookup::Nothing,
    {
        if let Some(name) = name {
            return ReminderLookup::ByName(name, person);
        }
        if let Some(person) = person {
            return ReminderLookup::ByPerson(person);
        }
        if let Some(description) = description {
            return ReminderLookup::ByDescription(description);
        }
        ReminderLookup::Nothing
    }

    /// The reminders after `today`, or all of them when past ones are asked
    /// for, in their order.
    pub fn filter_upcoming(reminders: Vec<Reminder>, include_past: bool, today: &Date) -> (kept: Vec<
        Reminder,
    >)
        ensures
            kept@ == upcoming(reminders@, include_past, today@),
    {
        let ghost all = reminders@;
        let mut reminders = reminders;
        let mut kept: Vec<Reminder> = Vec::new();
        let n = reminders.len();
        let mut i: usize = 0;
        assert(all.take(0) =~= Seq::<Reminder>::empty());
        while reminders.len() > 0
            invariant
                n == all.len(),
                reminders@.len() == n - i,
                0 <= i <= n,
                reminders@ == all.skip(i as int),
                kept@ == upcoming(all.take(i as int), include_past, today@),
            decreases reminders@.len(),
        {
            let r = reminders.remove(0);
            assert(reminders@ =~= all.skip(i + 1));
            assert(all.take(i + 1).drop_last() =~= all.take(i as int));
            assert(all.take(i + 1).last() == all[i as int]);
            if include_past || r.date.is_after(today) {
                kept.push(r);
            }
            i = i + 1;
        }
        assert(all.take(n as int) =~= all);
        kept
    }
}

} // verus!
