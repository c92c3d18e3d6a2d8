//! Reading an activity back from the editor.
use vstd::prelude::*;

use crate::entities::activity::{activity_editor_fold, Activity};
use crate::helpers::ActivityVars;
use crate::text::{lines_of, string_seqs};

verus! {

/// What can go wrong with the text of an edited activity.
#[derive(Debug)]
pub enum ParseError {
    FieldError { field: String },
    FormatError,
    TemplateError,
    EditorError,
    ActivityParseError { activity: String },
}

/// The text of a field name.
fn field_name(name: &str) -> (s: String)
    ensures
        s@ == name@,
{
    let mut s = String::new();
    crate::text::push_str(&mut s, name);
    s
}

/// Reads the activity the user wrote in the editor. A text that does not
/// read as an activity gives an error that quotes it; a missing date, type
/// or content gives an error that names the field, in that order.
pub fn populate_activity_vars(edited: &str) -> (r: Result<ActivityVars, ParseError>)
    ensures
        ({
            let st = activity_editor_fold(lines_of(edited@));
            if st.error {
                r matches Err(ParseError::ActivityParseError { activity }) && activity@ == edited@
            } else if st.date is None {
                r matches Err(ParseError::FieldError { field }) && field@ == "date"@
            } else if st.activity_type is None {
                r matches Err(ParseError::FieldError { field }) && field@ == "activity_type"@
            } else if st.content is None {
                r matches Err(ParseError::FieldError { field }) && field@ == "content"@
            } else {
                r matches Ok(v) && v.name@ == st.name && v.date@ == st.date->0 && v.activity_type@
                    == st.activity_type->0 && v.content@ == st.content->0 && string_seqs(v.people@)
                    == st.people
            }
        }),
{
    let (n, d, t, c, p) = match Activity::parse_from_editor(edited) {
        Ok(fields) => fields,
        Err(_) => {
            return Err(ParseError::ActivityParseError { activity: field_name(edited) });
        },
    };
    let date = match d {
        Some(date) => date,
        None => {
            return Err(ParseError::FieldError { field: field_name("date") });
        },
    };
    let activity_type = match t {
        Some(activity_type) => activity_type,
        None => {
            return Err(ParseError::FieldError { field: field_name("activity_type") });
        },
    };
    let content = match c {
        Some(content) => content,
        None => {
            return Err(ParseError::FieldError { field: field_name("content") });
        },
    };
    Ok(ActivityVars { name: n, date, activity_type, content, people: p })
}

} // verus!
