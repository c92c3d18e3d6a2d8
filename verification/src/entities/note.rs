//! Notes about people.
use vstd::prelude::*;

use crate::date::{flexible_date, iso_date_text, parse_flexible, Date};
use crate::entities::person::{people_lines, push_people_lines, Person};
use crate::entities::reminder::{people_record, update_people_result};
use crate::entities::Entity;
use crate::text::{
    decimal, push_decimal, push_str, char_seqs, lines_of, lines_vec, split_chars, split_to_strings, starts_with, starts_with_vec,
    string_seqs, strip_prefix_text, to_chars, trim_start_matches, trim_start_matches_vec,
};
use crate::CliError;

verus! {

/// The text the editor opens for a note.
pub const NOTE_TEMPLATE: &'static str = "Date: {date}\nContent: {content}\nPeople: {people}\n";

/// A dated note about some people.
#[derive(Debug, PartialEq)]
pub struct Note {
    pub id: u64,
    pub date: Date,
    pub content: String,
    pub people: Vec<Person>,
}

impl Entity for Note {
    open spec fn spec_id(&self) -> u64 {
        self.id
    }

    fn get_id(&self) -> (id: u64) {
        self.id
    }
}

/// Which notes a search asks for.
#[derive(Debug, PartialEq, Eq)]
pub enum NoteLookup {
    /// The notes of the person with this name.
    ByPerson(String),
    /// The notes whose content holds this text.
    ByContent(String),
    /// No notes at all.
    Nothing,
}

/// The fields read so far from an edited note text.
pub struct NoteEditorFields {
    pub date: Seq<char>,
    pub content: Seq<char>,
    pub people: Seq<Seq<char>>,
    pub error: bool,
}

/// Nothing read yet.
pub open spec fn note_editor_start() -> NoteEditorFields {
    NoteEditorFields { date: Seq::empty(), content: Seq::empty(), people: Seq::empty(), error: false }
}

/// What one line of an edited note text changes.
pub open spec fn note_editor_step(st: NoteEditorFields, line: Seq<char>) -> NoteEditorFields {
    if starts_with(line, "Date: "@) {
        NoteEditorFields { date: trim_start_matches(line, "Date: "@), ..st }
    } else if starts_with(line, "Content: "@) {
        NoteEditorFields { content: trim_start_matches(line, "Content: "@), ..st }
    } else if starts_with(line, "People: "@) {
        NoteEditorFields { people: split_chars(trim_start_matches(line, "People: "@), ','), ..st }
    } else {
        NoteEditorFields { error: true, ..st }
    }
}

/// The fields read from the given lines, in order.
pub open spec fn note_editor_fold(lines: Seq<Seq<char>>) -> NoteEditorFields
    decreases lines.len(),
{
    if lines.len() == 0 {
        note_editor_start()
    } else {
        note_editor_step(note_editor_fold(lines.drop_last()), lines.last())
    }
}

impl Note {
    /// A note with the given fields.
    pub fn new(id: u64, date: Date, content: String, people: Vec<Person>) -> (n: Note)
        ensures
            n.id == id,
            n.date == date,
            n.content == content,
            n.people == people,
    {
        Note { id, date, content, people }
    }

    /// What a search for notes looks up: by person when a person is named,
    /// otherwise by content when a content is given, otherwise nothing.
    pub fn lookup(person: Option<String>, content: Option<String>) -> (q: NoteLookup)
        ensures
            person matches Some(p) ==> q == NoteLookup::ByPerson(p),
            person is None ==> (content matches Some(c) ==> q == NoteLookup::ByContent(c)),
            person is None && content is None ==> q == NoteLookup::Nothing,
    {
        if let Some(person) = person {
            return NoteLookup::ByPerson(person);
        }
        if let Some(content) = content {
            return NoteLookup::ByContent(content);
        }
        NoteLookup::Nothing
    }

    /// The notes of the one person that a name search found, or `None` when
    /// it found more than one.
    pub fn notes_of_single_person(people: Vec<Person>) -> (r: Option<Vec<Note>>)
        requires
            people@.len() >= 1,
        ensures
            people@.len() > 1 ==> r is None,
            people@.len() == 1 ==> r == Some(people@[0].notes),
    {
        if people.len() > 1 {
            return None;
        }
        let mut people = people;
        let person = people.remove(0);
        Some(person.notes)
    }

    /// Sets the date if one is given (a full date, or a month and a day),
    /// the content if one is given, and the people that the given names were
    /// found to be (`None` when that lookup failed).
    pub fn update(
        &mut self,
        date: Option<String>,
        content: Option<String>,
        people: Option<Vec<Person>>,
    ) -> (r: Result<(), CliError>)
        ensures
            final(self).id == old(self).id,
            (date matches Some(d) && flexible_date(d@) is None) ==> {
                &&& r == Err::<(), CliError>(CliError::DateParse { date: date->0 })
                &&& final(self).date == old(self).date
                &&& final(self).content == old(self).content
                &&& final(self).people == old(self).people
            },
            date is None ==> final(self).date == old(self).date,
            (date matches Some(d) && flexible_date(d@) is Some) ==> flexible_date(date->0@) == Some(
                final(self).date@,
            ),
            (date matches Some(d) ==> flexible_date(d@) is Some) ==> {
                &&& content matches Some(c) ==> final(self).content == c
                &&& content is None ==> final(self).content == old(self).content
                &&& update_people_result(r, final(self).people, old(self).people, people)
            },
    {
        if let Some(date) = date {
            match parse_flexible(date.as_str()) {
                Some(d) => {
                    self.date = d;
                },
                None => {
                    return Err(CliError::DateParse { date });
                },
            }
        }
        if let Some(content) = content {
            self.content = content;
        }
        match people {
            Some(people) => {
                self.people = people;
            },
            None => {
                return Err(CliError::RecordParse { record: people_record() });
            },
        }
        Ok(())
    }

    /// Reads a note back from the text the editor returns: date, content and
    /// the comma-separated names of the people, each on the line with its
    /// label. Any line without a label is a format error.
    pub fn parse_from_editor(content: &str) -> (r: Result<(String, String, Vec<String>), CliError>)
        ensures
            ({
                let st = note_editor_fold(lines_of(content@));
                if st.error {
                    r matches Err(CliError::FormatError)
                } else {
                    r matches Ok(t) && t.0@ == st.date && t.1@ == st.content && string_seqs(t.2@)
                        == st.people
                }
            }),
    {
        let chars = to_chars(content);
        let lines = lines_vec(&chars);
        let date_prefix = to_chars("Date: ");
        let content_prefix = to_chars("Content: ");
        let people_prefix = to_chars("People: ");
        let mut error = false;
        let mut date: String = String::new();
        let mut note_contents: String = String::new();
        let mut people: Vec<String> = Vec::new();
        let ghost all = char_seqs(lines@);
        assert(all.take(0) =~= Seq::<Seq<char>>::empty());
        assert(string_seqs(people@) =~= Seq::<Seq<char>>::empty());
        let mut i: usize = 0;
        while i < lines.len()
            invariant
                0 <= i <= lines@.len(),
                all == char_seqs(lines@),
                date_prefix@ == "Date: "@,
                content_prefix@ == "Content: "@,
                people_prefix@ == "People: "@,
                ({
                    let st = note_editor_fold(all.take(i as int));
                    &&& error == st.error
                    &&& date@ == st.date
                    &&& note_contents@ == st.content
                    &&& string_seqs(people@) == st.people
                }),
            decreases lines@.len() - i,
        {
            let line = &lines[i];
            assert(all.take(i + 1).drop_last() == all.take(i as int));
            assert(all[i as int] == line@);
            if starts_with_vec(line, &date_prefix) {
                date = strip_prefix_text(line, &date_prefix);
            } else if starts_with_vec(line, &content_prefix) {
                note_contents = strip_prefix_text(line, &content_prefix);
            } else if starts_with_vec(line, &people_prefix) {
                let text = trim_start_matches_vec(line, &people_prefix);
                people = split_to_strings(&text, ',');
            } else {
                error = true;
            }
            i = i + 1;
        }
        assert(all.take(lines@.len() as int) == all);
        if error {
            return Err(CliError::FormatError);
        }
        Ok((date, note_contents, people))
    }
}

/// A note as it is printed.
pub open spec fn note_text(n: Note) -> Seq<char> {
    "note id: "@ + decimal(n.id as nat) + "\ncontent: "@ + n.content@ + "\ndate: "@ + iso_date_text(
        n.date@.0,
        n.date@.1,
        n.date@.2,
    ) + "\npeople:"@ + people_lines(n.people@) + "\n"@
}

impl Note {
    /// The note as it is printed: id, content, date and one line per person.
    pub fn to_string(&self) -> (s: String)
        ensures
            s@ == note_text(*self),
    {
        let mut s = String::new();
        push_str(&mut s, "note id: ");
        push_decimal(&mut s, self.id);
        push_str(&mut s, "\ncontent: ");
        push_str(&mut s, self.content.as_str());
        push_str(&mut s, "\ndate: ");
        let date = self.date.to_iso_string();
        push_str(&mut s, date.as_str());
        push_str(&mut s, "\npeople:");
        push_people_lines(&mut s, &self.people);
        push_str(&mut s, "\n");
        s
    }
}

} // verus!
