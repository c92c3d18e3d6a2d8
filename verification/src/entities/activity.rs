//! Activities done with people.
use vstd::prelude::*;

use crate::date::{flexible_date, parse_flexible, Date};
use crate::entities::reminder::people_record;
use crate::helpers::activity_type_from_name;
use crate::editor::ParseError;
use crate::entities::person::Person;
use crate::entities::Entity;
use crate::text::{
    char_seqs, lines_of, lines_vec, split_chars, split_to_strings, starts_with, starts_with_vec,
    string_seqs, strip_prefix_text, to_chars, trim_start_matches, trim_start_matches_vec,
};

verus! {

/// The text the editor opens for an activity.
pub const ACTIVITY_TEMPLATE: &'static str = "Name: {name}\nDate: {date}\nActivity Type: {activity_type}\nContent: {content}\nPeople: {people}\n";

/// Something done with some people on a date.
#[derive(Debug, PartialEq)]
pub struct Activity {
    pub id: u64,
    pub name: String,
    pub activity_type: ActivityType,
    pub date: Date,
    pub content: String,
    pub people: Vec<Person>,
}

/// How an activity took place.
#[derive(Debug, Clone, Copy, PartialEq, Eq)]
pub enum ActivityType {
    Phone,
    InPerson,
    Online,
}

/// What can go wrong while changing an activity.
#[derive(Debug)]
pub enum ActivityError {
    ActivityTypeParseError { activity_type: String },
    DateParseError { date: String },
    RecordParseError { record: String },
}

/// The stored name of an activity type.
pub open spec fn activity_type_name(t: ActivityType) -> Seq<char> {
    match t {
        ActivityType::Phone => "Phone"@,
        ActivityType::InPerson => "InPerson"@,
        ActivityType::Online => "Online"@,
    }
}

/// The activity type whose stored name is `name`.
pub open spec fn activity_type_from_stored_name(name: Seq<char>) -> Option<ActivityType> {
    if name == "Phone"@ {
        Some(ActivityType::Phone)
    } else if name == "InPerson"@ {
        Some(ActivityType::InPerson)
    } else if name == "Online"@ {
        Some(ActivityType::Online)
    } else {
        None
    }
}

impl ActivityType {
    /// The name of the variant, as it is stored in the database.
    pub fn as_ref(&self) -> (s: &'static str)
        ensures
            s@ == activity_type_name(*self),
    {
        match self {
            ActivityType::Phone => "Phone",
            ActivityType::InPerson => "InPerson",
            ActivityType::Online => "Online",
        }
    }

    /// The variant with a stored name.
    pub fn from_str(name: &str) -> (r: Option<ActivityType>)
        ensures
            r == activity_type_from_stored_name(name@),
    {
        if crate::text::str_eq(name, "Phone") {
            Some(ActivityType::Phone)
        } else if crate::text::str_eq(name, "InPerson") {
            Some(ActivityType::InPerson)
        } else if crate::text::str_eq(name, "Online") {
            Some(ActivityType::Online)
        } else {
            None
        }
    }
}

/// Whether some person of the list has the given name.
pub open spec fn has_person_named(people: Seq<Person>, name: Seq<char>) -> bool {
    exists|i: int| 0 <= i < people.len() && #[trigger] people[i].name@ == name
}

impl Entity for Activity {
    open spec fn spec_id(&self) -> u64 {
        self.id
    }

    fn get_id(&self) -> (id: u64) {
        self.id
    }
}

/// The fields read so far from an edited activity text.
pub struct ActivityEditorFields {
    pub name: Seq<char>,
    pub date: Option<Seq<char>>,
    pub activity_type: Option<Seq<char>>,
    pub content: Option<Seq<char>>,
    pub people: Seq<Seq<char>>,
    pub error: bool,
}

/// Nothing read yet.
pub open spec fn activity_editor_start() -> ActivityEditorFields {
    ActivityEditorFields {
        name: Seq::empty(),
        date: None,
        activity_type: None,
        content: None,
        people: Seq::empty(),
        error: false,
    }
}

/// What one line of an edited activity text changes: the line that starts
/// with a field's label sets that field, a line without a label is an error.
pub open spec fn activity_editor_step(st: ActivityEditorFields, line: Seq<char>) -> ActivityEditorFields {
    if starts_with(line, "Name: "@) {
        ActivityEditorFields { name: trim_start_matches(line, "Name: "@), ..st }
    } else if starts_with(line, "Date: "@) {
        ActivityEditorFields { date: Some(trim_start_matches(line, "Date: "@)), ..st }
    } else if starts_with(line, "Activity Type: "@) {
        ActivityEditorFields {
            activity_type: Some(trim_start_matches(line, "Activity Type: "@)),
            ..st
        }
    } else if starts_with(line, "Content: "@) {
        ActivityEditorFields { content: Some(trim_start_matches(line, "Content: "@)), ..st }
    } else if starts_with(line, "People: "@) {
        ActivityEditorFields {
            people: split_chars(trim_start_matches(line, "People: "@), ','),
            ..st
        }
    } else {
        ActivityEditorFields { error: true, ..st }
    }
}

/// The fields read from the given lines, in order.
pub open spec fn activity_editor_fold(lines: Seq<Seq<char>>) -> ActivityEditorFields
    decreases lines.len(),
{
    if lines.len() == 0 {
        activity_editor_start()
    } else {
        activity_editor_step(activity_editor_fold(lines.drop_last()), lines.last())
    }
}

/// Whether an optional string holds the optional text.
pub open spec fn opt_text(o: Option<String>, t: Option<Seq<char>>) -> bool {
    match t {
        Some(x) => o matches Some(s) && s@ == x,
        None => o is None,
    }
}

impl Activity {
    /// An activity with the given fields.
    pub fn new(
        id: u64,
        name: String,
        activity_type: ActivityType,
        date: Date,
        content: String,
        people: Vec<Person>,
    ) -> (a: Activity)
        ensures
            a.id == id,
            a.name == name,
            a.activity_type == activity_type,
            a.date == date,
            a.content == content,
            a.people == people,
    {
        Activity { id, name, activity_type, date, content, people }
    }

    /// Whether an activity with these people is kept by a search for a
    /// person: always when no person is searched for, otherwise when one of
    /// them has that name.
    pub fn matches_person_filter(people: &Vec<Person>, person: &Option<String>) -> (b: bool)
        ensures
            b == match person {
                Some(p) => has_person_named(people@, p@),
                None => true,
            },
    {
        match person {
            None => true,
            Some(p) => {
                let mut i: usize = 0;
                while i < people.len()
                    invariant
                        0 <= i <= people@.len(),
                        person matches Some(q) && q@ == p@,
                        forall|j: int| 0 <= j < i ==> people@[j].name@ != p@,
                    decreases people@.len() - i,
                {
                    if crate::text::str_eq(people[i].name.as_str(), p.as_str()) {
                        assert(people@[i as int].name@ == p@);
                        assert(has_person_named(people@, p@));
                        return true;
                    }
                    i = i + 1;
                }
                false
            },
        }
    }

    /// Sets the name, type, date and content that are given (the type by its
    /// command-line name, the date as a full date or a month and a day), then
    /// the people that the given names were found to be (`None` when that
    /// lookup failed). A type or date that cannot be read, or a failed
    /// lookup, stops the update there with an error.
    pub fn update(
        &mut self,
        name: Option<String>,
        activity_type: Option<String>,
        date: Option<String>,
        content: Option<String>,
        people: Option<Vec<Person>>,
    ) -> (r: Result<(), ActivityError>)
        ensures
            final(self).id == old(self).id,
            name matches Some(n) ==> final(self).name == n,
            name is None ==> final(self).name == old(self).name,
            (activity_type matches Some(t) && activity_type_from_name(t@) is None) ==> {
                &&& r == Err::<(), ActivityError>(
                    ActivityError::ActivityTypeParseError { activity_type: activity_type->0 },
                )
                &&& final(self).activity_type == old(self).activity_type
                &&& final(self).date == old(self).date
                &&& final(self).content == old(self).content
                &&& final(self).people == old(self).people
            },
            activity_type is None ==> final(self).activity_type == old(self).activity_type,
            (activity_type matches Some(t) && activity_type_from_name(t@) is Some) ==> Some(
                final(self).activity_type,
            ) == activity_type_from_name(activity_type->0@),
            (activity_type matches Some(t) ==> activity_type_from_name(t@) is Some) ==> {
                &&& (date matches Some(d) && flexible_date(d@) is None) ==> {
                    &&& r == Err::<(), ActivityError>(ActivityError::DateParseError { date: date->0 })
                    &&& final(self).date == old(self).date
                    &&& final(self).content == old(self).content
                    &&& final(self).people == old(self).people
                }
                &&& date is None ==> final(self).date == old(self).date
                &&& (date matches Some(d) && flexible_date(d@) is Some) ==> flexible_date(date->0@)
                    == Some(final(self).date@)
                &&& (date matches Some(d) ==> flexible_date(d@) is Some) ==> {
                    &&& content matches Some(c) ==> final(self).content == c
                    &&& content is None ==> final(self).content == old(self).content
                    &&& match people {
                        Some(p) => r is Ok && final(self).people == p,
                        None => final(self).people == old(self).people && (r matches Err(
                            ActivityError::RecordParseError { record },
                        ) && record@ == "people"@),
                    }
                }
            },
    {
        if let Some(name) = name {
            self.name = name;
        }
        if let Some(activity_type) = activity_type {
            match crate::helpers::get_activity_type(activity_type) {
                Ok(t) => {
                    self.activity_type = t;
                },
                Err(e) => {
                    let activity_type = match e {
                        crate::CliError::ActivityTypeParse { activity_type } => activity_type,
                        _ => String::new(),
                    };
                    return Err(ActivityError::ActivityTypeParseError { activity_type });
                },
            }
        }
        if let Some(date) = date {
            match parse_flexible(date.as_str()) {
                Some(d) => {
                    self.date = d;
                },
                None => {
                    return Err(ActivityError::DateParseError { date });
                },
            }
        }
        if let Some(content) = content {
            self.content = content;
        }
        match people {
            Some(people) => {
                self.people = people;
            },
            None => {
                return Err(ActivityError::RecordParseError { record: people_record() });
            },
        }
        Ok(())
    }

    /// Reads an activity back from the text the editor returns: name, date,
    /// type, content and the comma-separated names of the people, each on
    /// the line with its label. Any line without a label is a format error.
    pub fn parse_from_editor(content: &str) -> (r: Result<
        (String, Option<String>, Option<String>, Option<String>, Vec<String>),
        ParseError,
    >)
        ensures
            ({
                let st = activity_editor_fold(lines_of(content@));
                if st.error {
                    r matches Err(ParseError::FormatError)
                } else {
                    r matches Ok(t) && t.0@ == st.name && opt_text(t.1, st.date) && opt_text(
                        t.2,
                        st.activity_type,
                    ) && opt_text(t.3, st.content) && string_seqs(t.4@) == st.people
                }
            }),
    {
        let chars = to_chars(content);
        let lines = lines_vec(&chars);
        let name_prefix = to_chars("Name: ");
        let date_prefix = to_chars("Date: ");
        let activity_type_prefix = to_chars("Activity Type: ");
        let activity_content_prefix = to_chars("Content: ");
        let people_prefix = to_chars("People: ");
        let mut error = false;
        let mut name: String = String::new();
        let mut date: Option<String> = None;
        let mut activity_type: Option<String> = None;
        let mut activity_content: Option<String> = None;
        let mut people: Vec<String> = Vec::new();
        let ghost all = char_seqs(lines@);
        assert(all.take(0) =~= Seq::<Seq<char>>::empty());
        assert(string_seqs(people@) =~= Seq::<Seq<char>>::empty());
        let mut i: usize = 0;
        while i < lines.len()
            invariant
                0 <= i <= lines@.len(),
                all == char_seqs(lines@),
                name_prefix@ == "Name: "@,
                date_prefix@ == "Date: "@,
                activity_type_prefix@ == "Activity Type: "@,
                activity_content_prefix@ == "Content: "@,
                people_prefix@ == "People: "@,
                ({
                    let st = activity_editor_fold(all.take(i as int));
                    &&& error == st.error
                    &&& name@ == st.name
                    &&& opt_text(date, st.date)
                    &&& opt_text(activity_type, st.activity_type)
                    &&& opt_text(activity_content, st.content)
                    &&& string_seqs(people@) == st.people
                }),
            decreases lines@.len() - i,
        {
            let line = &lines[i];
            assert(all.take(i + 1).drop_last() == all.take(i as int));
            assert(all[i as int] == line@);
            if starts_with_vec(line, &name_prefix) {
                name = strip_prefix_text(line, &name_prefix);
            } else if starts_with_vec(line, &date_prefix) {
                date = Some(strip_prefix_text(line, &date_prefix));
            } else if starts_with_vec(line, &activity_type_prefix) {
                activity_type = Some(strip_prefix_text(line, &activity_type_prefix));
            } else if starts_with_vec(line, &activity_content_prefix) {
                activity_content = Some(strip_prefix_text(line, &activity_content_prefix));
            } else if starts_with_vec(line, &people_prefix) {
                let text = trim_start_matches_vec(line, &people_prefix);
                people = split_to_strings(&text, ',');
            } else {
                error = true;
            }
            i = i + 1;
        }
        assert(all.take(lines@.len() as int) == all);
        if error {
            return Err(ParseError::FormatError);
        }
        Ok((name, date, activity_type, activity_content, people))
    }
}

} // verus!
