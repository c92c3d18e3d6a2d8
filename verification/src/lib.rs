//! A personal relationship manager: people, the activities done with them,
//! reminders and notes, and the rules that read, check and print them.
pub mod cli;
pub mod date;
pub mod db;
pub mod editor;
pub mod forms;
pub mod entities;
pub mod helpers;
pub mod template;
pub mod properties;
pub mod text;

use vstd::prelude::*;

verus! {

/// What can go wrong while reading or changing an entity from the command line.
#[derive(Debug)]
pub enum CliError {
    BirthdayParse { birthday: String },
    ContactInfoParse { contact_info: String },
    ActivityTypeParse { activity_type: String },
    DateParse { date: String },
    RecurringTypeParse { recurring_type: String },
    EditorParse { entity: String },
    RecordParse { record: String },
    FieldError { field: String },
    EditorError,
    FormatError,
    InvalidIdFormat,
    ActivityParseError { activity: String },
    Add { entity: String },
    Entity { entity: String },
    Edit { entity: String },
    NotFound { entity: String, id: u64 },
    MissingField { entity: String, field: String },
    Template { template: String, vars: Vec<(String, String)> },
}

} // verus!
