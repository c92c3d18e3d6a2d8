use prm::entities::activity::{Activity, ActivityType};
use prm::entities::note::Note;
use prm::entities::person::{ContactInfo, Person};
use prm::entities::reminder::{RecurringType, Reminder};
use prm::helpers::parse_from_str_ymd;

#[test]
fn activity_test_new() {
    let id = 1;
    let name = "hiking".to_string();
    let activity_type = ActivityType::InPerson;
    let date = parse_from_str_ymd("2018-01-01").unwrap();
    let content = "hiking the mountains".to_string();
    let people: Vec<Person> = vec![];
    let activity = Activity::new(
        id,
        name.clone(),
        activity_type.clone(),
        date,
        content.clone(),
        vec![],
    );
    assert_eq!(
        Activity {
            id,
            name,
            activity_type,
            date,
            content,
            people
        },
        activity
    );
}

#[test]
fn note_test_new() {
    let id = 1;
    let date = parse_from_str_ymd("2020-01-01").unwrap();
    let content = String::from("book");
    let people: Vec<Person> = vec![];

    let note = Note::new(id, date, content.clone(), vec![]);

    assert_eq!(
        Note {
            id,
            date,
            content,
            people,
        },
        note
    );
}

#[test]
fn person_test_new() {
    let id = 1;
    let name = String::from("Zeh");
    let birthday = parse_from_str_ymd("2000-01-01").unwrap();
    let contact_info: Vec<ContactInfo> = vec![];
    let activities: Vec<Activity> = vec![];
    let reminders: Vec<Reminder> = vec![];
    let notes: Vec<Note> = vec![];

    let person = Person::new(
        id,
        name.clone(),
        Some(birthday),
        contact_info.clone(),
        vec![],
        vec![],
    );

    assert_eq!(
        Person {
            id,
            name,
            birthday: Some(birthday),
            contact_info,
            activities,
            reminders,
            notes,
        },
        person
    );
}

#[test]
fn reminder_test_new() {
    let id = 1;
    let name = String::from("I forgot");
    let date = parse_from_str_ymd("2022-01-01").unwrap();
    let description = String::from("I don't remember");
    let recurring = RecurringType::Daily;
    let people: Vec<Person> = vec![];

    let reminder = Reminder::new(
        id,
        name.clone(),
        date,
        Some(description.clone()),
        recurring.clone(),
        vec![],
    );

    assert_eq!(
        Reminder {
            id,
            name,
            date,
            description: Some(description),
            recurring,
            people,
        },
        reminder
    );
}
