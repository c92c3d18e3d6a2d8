use prm::cli::edit::{
    activity_editor_text, apply_activity_edit, apply_note_edit, apply_person_edit,
    apply_reminder_edit, contact_info_field_text, edited_contacts_readable, note_editor_text,
    person_editor_text, read_activity_edit, read_note_edit, read_reminder_edit,
    reminder_editor_text,
};
use prm::editor::{populate_activity_vars, ParseError as EditorParseError};
use prm::entities::activity::{Activity, ActivityError, ActivityType};
use prm::entities::note::Note;
use prm::entities::person::{contact_info_text_ok, ContactInfo, ContactInfoType, Person};
use prm::entities::reminder::{RecurringType, Reminder};
use prm::helpers::parse_from_str_ymd;
use prm::CliError;

fn person_with_phone() -> Person {
    let c = ContactInfo::new(11, 3, ContactInfoType::Phone("123".to_string()));
    Person::new(
        3,
        "Zeh".to_string(),
        Some(parse_from_str_ymd("2000-01-01").unwrap()),
        vec![c],
        vec![],
        vec![],
    )
}

fn bob() -> Person {
    Person::new(8, "Bob".to_string(), None, vec![], vec![], vec![])
}

#[test]
fn person_parsed_from_editor() {
    let text = "Name: Zeh\nBirthday: 2000-01-01\nContact Info: phone:123,email:z@e.h\nActivities: 1,2\nReminders: 3\n";
    let d = Person::parse_from_editor(text).unwrap();
    assert_eq!(d.name, "Zeh");
    assert_eq!(d.birthday, Some("2000-01-01".to_string()));
    assert_eq!(d.contact_info, vec!["phone:123".to_string(), "email:z@e.h".to_string()]);
    assert_eq!(d.activities, vec![1, 2]);
    assert_eq!(d.reminders, vec![3]);
}

#[test]
fn person_editor_errors() {
    assert!(matches!(Person::parse_from_editor("Name: Zeh\nAge: 3\n"), Err(CliError::FormatError)));
    assert!(matches!(Person::parse_from_editor("Activities: 1,x\n"), Err(CliError::InvalidIdFormat)));
    assert!(matches!(Person::parse_from_editor("Reminders: \n"), Err(CliError::InvalidIdFormat)));
}

#[test]
fn person_update_reads_birthday_and_contacts() {
    let mut p = person_with_phone();
    p.update_details("Zoe".to_string(), Some("05-06".to_string()), Some("email:a@b,whatsapp:9".to_string()))
        .unwrap();
    assert_eq!(p.name, "Zoe");
    assert_eq!(p.birthday.unwrap().to_iso_string(), "0001-05-06");
    assert_eq!(p.contact_info.len(), 2);
    assert_eq!(p.contact_info[0].person_id, 3);
    assert_eq!(p.contact_info[1].contact_info_type, ContactInfoType::WhatsApp("9".to_string()));
}

#[test]
fn person_update_errors() {
    let mut p = person_with_phone();
    match p.update_details("Zoe".to_string(), Some("soon".to_string()), None) {
        Err(CliError::BirthdayParse { birthday }) => assert_eq!(birthday, "soon"),
        other => panic!("unexpected {:?}", other),
    }
    let mut p = person_with_phone();
    match p.update("Zoe".to_string(), None, Some("fax:1".to_string()), vec![], vec![]) {
        Err(CliError::ContactInfoParse { contact_info }) => assert_eq!(contact_info, "fax:1"),
        other => panic!("unexpected {:?}", other),
    }
    assert!(!contact_info_text_ok(""));
    assert!(!contact_info_text_ok("phone:1,email"));
    assert!(!contact_info_text_ok("fax,email"));
    assert!(contact_info_text_ok("fax:1,email"));
}

#[test]
fn person_editor_text_lacks_variables() {
    // The template names activities and reminders too: strfmt refuses it.
    let p = person_with_phone();
    match person_editor_text(&p, None, None, None) {
        Err(CliError::Template { template, vars }) => {
            assert!(template.starts_with("Name: {name}"));
            assert_eq!(vars[0], ("name".to_string(), "Zeh".to_string()));
            assert_eq!(vars[1], ("birthday".to_string(), "2000-01-01".to_string()));
            assert_eq!(vars[2], ("contact_info".to_string(), "phone:123".to_string()));
        }
        other => panic!("unexpected {:?}", other),
    }
}

#[test]
fn person_edit_applied() {
    let mut p = person_with_phone();
    let text = "Name: Zeh Z\nBirthday: 2001-02-03\nContact Info: email:z@z\n";
    assert!(edited_contacts_readable(text));
    apply_person_edit(&mut p, text).unwrap();
    assert_eq!(p.name, "Zeh Z");
    assert_eq!(p.birthday.unwrap().to_iso_string(), "2001-02-03");
    assert_eq!(p.contact_info[0].contact_info_type, ContactInfoType::Email("z@z".to_string()));
    let mut q = person_with_phone();
    match apply_person_edit(&mut q, "Nom: x\n") {
        Err(CliError::EditorParse { entity }) => assert_eq!(entity, "Person"),
        other => panic!("unexpected {:?}", other),
    }
    assert_eq!(q, person_with_phone());
}

#[test]
fn contact_field_shows_lower_case_types() {
    let p = person_with_phone();
    let mut cs = p.contact_info.clone();
    cs.push(ContactInfo::new(12, 3, ContactInfoType::WhatsApp("77".to_string())));
    assert_eq!(contact_info_field_text(&cs), "phone:123,whatsapp:77");
}

fn hike() -> Activity {
    Activity::new(
        2,
        "hike".to_string(),
        ActivityType::Online,
        parse_from_str_ymd("2018-01-01").unwrap(),
        "up".to_string(),
        vec![bob()],
    )
}

#[test]
fn activity_parsed_from_editor() {
    let text = "Name: hike\nDate: 2018-01-01\nActivity Type: phone\nContent: up\nPeople: Ann,Bob\n";
    let (n, d, t, c, p) = Activity::parse_from_editor(text).unwrap();
    assert_eq!(n, "hike");
    assert_eq!(d, Some("2018-01-01".to_string()));
    assert_eq!(t, Some("phone".to_string()));
    assert_eq!(c, Some("up".to_string()));
    assert_eq!(p, vec!["Ann".to_string(), "Bob".to_string()]);
    assert!(matches!(Activity::parse_from_editor("Where: here\n"), Err(EditorParseError::FormatError)));
}

#[test]
fn activity_vars_from_editor() {
    let ok = populate_activity_vars("Name: a\nDate: 2018-01-01\nActivity Type: online\nContent: c\n").unwrap();
    assert_eq!(ok.activity_type, "online");
    assert!(ok.people.is_empty());
    match populate_activity_vars("Name: a\nContent: c\n") {
        Err(EditorParseError::FieldError { field }) => assert_eq!(field, "date"),
        other => panic!("unexpected {:?}", other.err()),
    }
    match populate_activity_vars("oops") {
        Err(EditorParseError::ActivityParseError { activity }) => assert_eq!(activity, "oops"),
        other => panic!("unexpected {:?}", other.err()),
    }
}

#[test]
fn activity_editor_text_and_edit() {
    let a = hike();
    let text = activity_editor_text(&a, None, None, None, Some("down".to_string())).unwrap();
    assert_eq!(
        text,
        "Name: hike\nDate: 2018-01-01\nActivity Type: online\nContent: down\nPeople: Bob\n"
    );
    let (n, t, d, c, p) = read_activity_edit(&text).unwrap();
    assert_eq!(p, vec!["Bob".to_string()]);
    let mut a = hike();
    apply_activity_edit(&mut a, n, t, d, c, Some(vec![bob()])).unwrap();
    assert_eq!(a.content, "down");
    assert_eq!(a.activity_type, ActivityType::Online);
    let mut b = hike();
    match apply_activity_edit(&mut b, "x".to_string(), "inperson".to_string(), "2018-01-01".to_string(), "c".to_string(), Some(vec![])) {
        Err(CliError::Edit { entity }) => assert_eq!(entity, "Activity"),
        other => panic!("unexpected {:?}", other),
    }
}

#[test]
fn activity_update_errors() {
    let mut a = hike();
    match a.update(None, Some("bike".to_string()), None, None, Some(vec![])) {
        Err(ActivityError::ActivityTypeParseError { activity_type }) => assert_eq!(activity_type, "bike"),
        other => panic!("unexpected {:?}", other),
    }
    let mut a = hike();
    match a.update(None, None, Some("x".to_string()), None, Some(vec![])) {
        Err(ActivityError::DateParseError { date }) => assert_eq!(date, "x"),
        other => panic!("unexpected {:?}", other),
    }
    let mut a = hike();
    match a.update(None, None, None, None, None) {
        Err(ActivityError::RecordParseError { record }) => assert_eq!(record, "people"),
        other => panic!("unexpected {:?}", other),
    }
    let mut a = hike();
    a.update(Some("walk".to_string()), Some("in_person".to_string()), Some("03-04".to_string()), None, Some(vec![]))
        .unwrap();
    assert_eq!(a.name, "walk");
    assert_eq!(a.activity_type, ActivityType::InPerson);
    assert_eq!(a.date.to_iso_string(), "0001-03-04");
    assert!(a.people.is_empty());
}

fn call() -> Reminder {
    Reminder::new(
        4,
        "Call".to_string(),
        parse_from_str_ymd("2022-01-01").unwrap(),
        Some("mum".to_string()),
        RecurringType::Weekly,
        vec![bob()],
    )
}

#[test]
fn reminder_parsed_and_edited() {
    let text = reminder_editor_text(&call(), None, None, None, None).unwrap();
    assert_eq!(text, "Name: Call\nDate: 2022-01-01\nRecurring: weekly\nDescription: mum\nPeople: Bob\n");
    let d = Reminder::parse_from_editor(&text).unwrap();
    assert_eq!(d.recurring_type, Some("weekly".to_string()));
    let (n, date, rec, desc, people) = read_reminder_edit(&text).unwrap();
    assert_eq!(people, vec!["Bob".to_string()]);
    let mut r = call();
    apply_reminder_edit(&mut r, n, date, rec, desc, Some(vec![])).unwrap();
    assert_eq!(r.recurring, RecurringType::Weekly);
    assert_eq!(r.description, Some("mum".to_string()));
    assert!(r.people.is_empty());
    match read_reminder_edit("Name: Call\n") {
        Err(CliError::MissingField { entity, field }) => {
            assert_eq!((entity.as_str(), field.as_str()), ("reminder", "date"))
        }
        other => panic!("unexpected {:?}", other),
    }
}

#[test]
fn reminder_update_errors() {
    let mut r = call();
    match r.update(None, None, None, Some("hourly".to_string()), Some(vec![])) {
        Err(CliError::RecurringTypeParse { recurring_type }) => assert_eq!(recurring_type, "hourly"),
        other => panic!("unexpected {:?}", other),
    }
    assert_eq!(r.recurring, RecurringType::Weekly);
}

fn book() -> Note {
    Note::new(6, parse_from_str_ymd("2020-01-01").unwrap(), "book".to_string(), vec![bob()])
}

#[test]
fn note_parsed_and_edited() {
    let text = note_editor_text(&book(), Some("2020-02-02".to_string()), None).unwrap();
    assert_eq!(text, "Date: 2020-02-02\nContent: book\nPeople: Bob\n");
    let (d, c, p) = read_note_edit(&text).unwrap();
    assert_eq!((d.as_str(), c.as_str()), ("2020-02-02", "book"));
    let mut n = book();
    apply_note_edit(&mut n, d, c, Some(vec![bob()])).unwrap();
    assert_eq!(n.date.to_iso_string(), "2020-02-02");
    assert!(matches!(Note::parse_from_editor("Who: me\n"), Err(CliError::FormatError)));
    let mut m = book();
    match apply_note_edit(&mut m, "never".to_string(), "x".to_string(), Some(vec![])) {
        Err(CliError::Edit { entity }) => assert_eq!(entity, "Note"),
        other => panic!("unexpected {:?}", other),
    }
}

#[test]
fn entities_as_printed() {
    assert_eq!(
        person_with_phone().to_string(),
        "person id: 3\nname: Zeh\nbirthday: 2000-01-01\ncontact_info: \n\tPhone: 123\nactivities: \nreminders: \nnotes: \n"
    );
    assert_eq!(
        call().to_string(),
        "reminder id: 4\nname: Call\ndate: 2022-01-01\ndescription: mum\nrecurring type: Weekly\npeople:\n\tname: Bob\n"
    );
    assert_eq!(book().to_string(), "note id: 6\ncontent: book\ndate: 2020-01-01\npeople:\n\tname: Bob\n");
}

#[test]
fn unreadable_birthday_stops_before_contacts() {
    let mut p = person_with_phone();
    match p.update("Zoe".to_string(), Some("soon".to_string()), Some("fax".to_string()), vec![], vec![]) {
        Err(CliError::BirthdayParse { birthday }) => assert_eq!(birthday, "soon"),
        other => panic!("unexpected {:?}", other),
    }
    assert_eq!(p.name, "Zoe");
    assert_eq!(p.birthday, person_with_phone().birthday);
    assert_eq!(p.contact_info, person_with_phone().contact_info);
    assert!(edited_contacts_readable("Name: Zoe\nBirthday: soon\nContact Info: fax\n"));
    assert!(!edited_contacts_readable("Name: Zoe\nBirthday: 2000-01-01\nContact Info: fax\n"));
}
