use prm::cli::add::{
    activity, activity_needs_editor, activity_template, note, note_template, person,
    person_contacts_complete, person_template, reminder, reminder_template, ParseError,
};
use prm::date::DateParseError;
use prm::entities::activity::ActivityType;
use prm::entities::person::{ContactInfoType, EditorData, Person};
use prm::entities::reminder::RecurringType;
use prm::helpers::ActivityVars;
use prm::CliError;

fn strings(v: &[&str]) -> Vec<String> {
    v.iter().map(|s| s.to_string()).collect()
}

fn ann() -> Person {
    Person::new(5, "Ann".to_string(), None, vec![], vec![], vec![])
}

#[test]
fn person_from_arguments() {
    let p = person(
        Some("Zeh".to_string()),
        Some("2000-01-01".to_string()),
        Some(strings(&["phone:123", "email:z@e.h"])),
        None,
    )
    .unwrap();
    assert_eq!(p.id, 0);
    assert_eq!(p.name, "Zeh");
    assert_eq!(p.birthday.unwrap().to_iso_string(), "2000-01-01");
    assert_eq!(p.contact_info.len(), 2);
    assert_eq!(p.contact_info[0].contact_info_type, ContactInfoType::Phone("123".to_string()));
    assert_eq!(p.contact_info[0].person_id, 0);
    assert_eq!(p.contact_info[1].details, "z@e.h");
    assert!(p.activities.is_empty() && p.reminders.is_empty() && p.notes.is_empty());
}

#[test]
fn person_birthday_may_be_a_month_and_day() {
    let p = person(Some("Zeh".to_string()), Some("07-04".to_string()), None, None).unwrap();
    assert_eq!(p.birthday.unwrap().to_iso_string(), "0001-07-04");
    assert!(p.contact_info.is_empty());
}

#[test]
fn person_with_unreadable_birthday() {
    match person(Some("Zeh".to_string()), Some("someday".to_string()), Some(strings(&["fax:1"])), None) {
        Err(ParseError::BirthdayParseError { birthday }) => assert_eq!(birthday, "someday"),
        other => panic!("unexpected {:?}", other),
    }
}

#[test]
fn person_with_unknown_contact_types_lists_them_all() {
    let r = person(
        Some("Zeh".to_string()),
        None,
        Some(strings(&["fax:1", "phone:2", "pager:3"])),
        None,
    );
    match r {
        Err(ParseError::ContactInfoParseError { contact_info }) => {
            assert_eq!(contact_info, "fax:1,pager:3")
        }
        other => panic!("unexpected {:?}", other),
    }
}

#[test]
fn person_from_the_editor() {
    let edited = EditorData {
        name: "Ann".to_string(),
        birthday: Some("1990-02-03".to_string()),
        contact_info: strings(&["whatsapp:555"]),
        activities: vec![],
        reminders: vec![],
    };
    let p = person(None, Some("ignored".to_string()), None, Some(edited)).unwrap();
    assert_eq!(p.name, "Ann");
    assert_eq!(p.birthday.unwrap().to_iso_string(), "1990-02-03");
    assert_eq!(p.contact_info.len(), 1);
    assert_eq!(p.contact_info[0].contact_info_type, ContactInfoType::WhatsApp("555".to_string()));
}

#[test]
fn person_from_the_editor_with_contact_arguments_keeps_none() {
    let edited = EditorData {
        name: "Ann".to_string(),
        birthday: None,
        contact_info: strings(&["whatsapp:555"]),
        activities: vec![],
        reminders: vec![],
    };
    let p = person(None, None, Some(strings(&["phone:1"])), Some(edited)).unwrap();
    assert!(p.contact_info.is_empty());
    assert!(p.birthday.is_none());
}

#[test]
fn contact_texts_need_a_value() {
    assert!(person_contacts_complete(&Some(strings(&["phone:1"])), &None));
    assert!(!person_contacts_complete(&Some(strings(&["phone:1", "phone"])), &None));
    assert!(person_contacts_complete(&None, &None));
}

#[test]
fn person_template_lacks_variables() {
    // The person template also names activities and reminders, which a new
    // person does not give: strfmt refuses it.
    assert!(person_template(&Some("a".to_string()), &None, &None).is_none());
}

#[test]
fn activity_template_shows_arguments() {
    let t = activity_template(
        &Some("hike".to_string()),
        &None,
        &Some("2018-01-01".to_string()),
        &None,
        &strings(&["Ann", "Bob"]),
    )
    .unwrap();
    assert_eq!(
        t,
        "Name: hike\nDate: 2018-01-01\nActivity Type: \nContent: \nPeople: Ann,Bob\n"
    );
}

#[test]
fn reminder_and_note_templates() {
    let r = reminder_template(&None, &Some("2022-01-01".to_string()), &Some("weekly".to_string()), &None, &vec![])
        .unwrap();
    assert_eq!(r, "Name: \nDate: 2022-01-01\nRecurring: weekly\nDescription: \nPeople: \n");
    // The note template names a date that a new note does not give.
    assert!(note_template(&None, &strings(&["Ann"])).is_none());
}

#[test]
fn activity_editor_is_used_unless_all_fields_are_given() {
    let s = |x: &str| Some(x.to_string());
    assert!(!activity_needs_editor(&s("a"), &s("phone"), &s("2018-01-01"), &s("c")));
    assert!(activity_needs_editor(&None, &s("phone"), &s("2018-01-01"), &s("c")));
    assert!(activity_needs_editor(&s("a"), &s("phone"), &None, &s("c")));
}

fn vars(activity_type: &str, date: &str) -> ActivityVars {
    ActivityVars {
        name: "hike".to_string(),
        date: date.to_string(),
        activity_type: activity_type.to_string(),
        content: "up".to_string(),
        people: vec![],
    }
}

#[test]
fn activity_from_fields() {
    let a = activity(vars("in_person", "2018-01-01"), vec![ann()]).unwrap();
    assert_eq!(a.id, 0);
    assert_eq!(a.activity_type, ActivityType::InPerson);
    assert_eq!(a.date.to_iso_string(), "2018-01-01");
    assert_eq!(a.people.len(), 1);
    assert_eq!(a.content, "up");
}

#[test]
fn activity_errors() {
    match activity(vars("walk", "nope"), vec![]) {
        Err(ParseError::ActivityTypeParseError { activity_type }) => assert_eq!(activity_type, "walk"),
        other => panic!("unexpected {:?}", other),
    }
    match activity(vars("online", "01-02"), vec![]) {
        Err(ParseError::DateParseError { date }) => assert_eq!(date, "01-02"),
        other => panic!("unexpected {:?}", other),
    }
}

#[test]
fn reminder_from_fields() {
    let r = reminder(
        "Call".to_string(),
        "2022-03-04".to_string(),
        "quarterly".to_string(),
        String::new(),
        vec![ann()],
    )
    .unwrap();
    assert_eq!(r.id, 0);
    assert_eq!(r.recurring, RecurringType::Quarterly);
    assert_eq!(r.description, Some(String::new()));
    assert_eq!(r.date.to_iso_string(), "2022-03-04");
    assert_eq!(r.people[0].name, "Ann");
}

#[test]
fn reminder_errors() {
    match reminder("a".to_string(), "bad".to_string(), "sometimes".to_string(), String::new(), vec![]) {
        Err(CliError::RecurringTypeParse { recurring_type }) => assert_eq!(recurring_type, "sometimes"),
        other => panic!("unexpected {:?}", other),
    }
    match reminder("a".to_string(), "bad".to_string(), "daily".to_string(), String::new(), vec![]) {
        Err(CliError::DateParse { date }) => assert_eq!(date, "bad"),
        other => panic!("unexpected {:?}", other),
    }
}

#[test]
fn note_needs_a_full_date() {
    let n = note("2020-01-01", "book".to_string(), vec![ann()]).unwrap();
    assert_eq!(n.id, 0);
    assert_eq!(n.content, "book");
    assert_eq!(n.date.to_iso_string(), "2020-01-01");
    assert_eq!(note("", String::new(), vec![]).err(), Some(DateParseError::TooShort));
}
