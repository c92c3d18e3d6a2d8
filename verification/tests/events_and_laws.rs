use prm::cli::edit::{contact_info_field_text, reminder_editor_text};
use prm::entities::activity::ActivityType;
use prm::entities::event::{CalendarEntry, Event, EventType};
use prm::entities::person::{ContactInfo, ContactInfoType, Person};
use prm::entities::reminder::{RecurringType, Reminder};
use prm::helpers::{get_activity_type, parse_from_str_ymd};
use prm::text::{join_strings, split_str, to_lowercase_ascii};

fn date(s: &str) -> prm::date::Date {
    parse_from_str_ymd(s).unwrap()
}

fn person(id: u64, name: &str, birthday: Option<&str>) -> Person {
    Person::new(id, name.to_string(), birthday.map(date), vec![], vec![], vec![])
}

fn reminder(id: u64, name: &str, on: &str, description: Option<&str>) -> Reminder {
    Reminder::new(
        id,
        name.to_string(),
        date(on),
        description.map(|d| d.to_string()),
        RecurringType::Yearly,
        vec![person(9, "Ann", None), person(10, "Bob", None)],
    )
}

#[test]
fn events_are_birthdays_then_reminders() {
    let people = vec![
        person(1, "Zeh", Some("2000-05-01")),
        person(2, "Nobody", None),
        person(3, "Ola", Some("1980-01-02")),
    ];
    let reminders = vec![reminder(4, "Call", "2030-03-03", None)];
    let events = Event::collect(people, reminders);
    assert_eq!(events.len(), 3);
    assert_eq!(events[0].kind, "Birthday");
    assert_eq!(events[0].date.to_iso_string(), "2000-05-01");
    assert_eq!(events[1].kind, "Birthday");
    assert_eq!(events[2].kind, "Reminder");
    assert_eq!(
        events[2].to_string(),
        "name: Call\ndate: 2030-03-03\nkind: Reminder\ndescription: [Empty]\npeople: Ann, Bob\n"
    );
}

#[test]
fn birthday_event_as_printed() {
    let mut p = person(1, "Zeh", Some("2000-05-01"));
    p.contact_info.push(ContactInfo::new(1, 1, ContactInfoType::Email("z@e".to_string())));
    let events = Event::collect(vec![p], vec![]);
    assert_eq!(
        events[0].to_string(),
        "name: Zeh\ndate: 2000-05-01\nkind: Birthday\ncontact info: \n\tEmail: z@e\n"
    );
}

#[test]
fn horizon_and_limit() {
    assert_eq!(Event::horizon(0), 3650);
    assert_eq!(Event::horizon(90), 90);
    let today = date("2024-12-01");
    assert_eq!(Event::date_limit(&today, 31).unwrap().to_iso_string(), "2025-01-01");
}

#[test]
fn events_sorted_by_day_of_year_keep_their_order() {
    let people = vec![
        person(1, "Dec", Some("1990-12-24")),
        person(2, "JanLate", Some("2001-01-20")),
        person(3, "JanEarly", Some("1970-01-02")),
        person(4, "JanLateToo", Some("1985-01-20")),
    ];
    let events = Event::collect(people, vec![reminder(5, "Mar", "2030-03-01", Some("x"))]);
    let sorted = Event::sort_by_day(events);
    let names: Vec<String> = sorted
        .iter()
        .map(|e| match &e.details {
            EventType::Person(p) => p.name.clone(),
            EventType::Reminder(r) => r.name.clone(),
        })
        .collect();
    assert_eq!(names, vec!["JanEarly", "JanLate", "JanLateToo", "Mar", "Dec"]);
    assert!(Event::sort_by_day(vec![]).is_empty());
}

#[test]
fn calendar_entries_follow_the_flags() {
    let make = || {
        Event::collect(
            vec![person(1, "Zeh", Some("2000-05-01"))],
            vec![reminder(2, "Call", "2030-03-03", None), reminder(3, "Pay", "2030-04-04", Some("rent"))],
        )
    };
    let only_birthdays = Event::calendar_entries(make(), true, false, false);
    assert_eq!(only_birthdays.len(), 1);
    match &only_birthdays[0] {
        CalendarEntry::Birthday { summary, start, contact_info } => {
            assert_eq!(summary, "Zeh's birthday");
            assert_eq!(start, "20000501");
            assert!(contact_info.is_empty());
        }
        other => panic!("unexpected {:?}", other),
    }
    let only_reminders = Event::calendar_entries(make(), false, true, false);
    assert_eq!(only_reminders.len(), 2);
    match &only_reminders[1] {
        CalendarEntry::Todo { summary, comment, due } => {
            assert_eq!(summary, "Pay");
            assert_eq!(comment, "rent");
            assert_eq!(due, "20300404T090000");
        }
        other => panic!("unexpected {:?}", other),
    }
    match &only_reminders[0] {
        CalendarEntry::Todo { comment, .. } => assert_eq!(comment, "[Empty]"),
        other => panic!("unexpected {:?}", other),
    }
    assert!(Event::calendar_entries(make(), false, false, false).is_empty());
    assert_eq!(Event::calendar_entries(make(), false, false, true).len(), 3);
}

#[test]
fn upcoming_reminders() {
    let today = date("2025-01-01");
    let rs = || {
        vec![
            reminder(1, "past", "2024-06-01", None),
            reminder(2, "today", "2025-01-01", None),
            reminder(3, "next", "2025-01-02", None),
        ]
    };
    let kept = Reminder::filter_upcoming(rs(), false, &today);
    assert_eq!(kept.len(), 1);
    assert_eq!(kept[0].name, "next");
    assert_eq!(Reminder::filter_upcoming(rs(), true, &today).len(), 3);
}

#[test]
fn stored_names_read_back() {
    for t in [ActivityType::Phone, ActivityType::InPerson, ActivityType::Online] {
        assert_eq!(ActivityType::from_str(t.as_ref()), Some(t));
    }
    let all = [
        RecurringType::OneTime,
        RecurringType::Daily,
        RecurringType::Weekly,
        RecurringType::Fortnightly,
        RecurringType::Monthly,
        RecurringType::Quarterly,
        RecurringType::Biannual,
        RecurringType::Yearly,
    ];
    for t in all {
        assert_eq!(RecurringType::from_str(t.as_ref()), Some(t));
        assert_eq!(RecurringType::from_cli_name(&to_lowercase_ascii(t.as_ref())), Some(t));
    }
}

#[test]
fn edited_activity_types_read_back_but_in_person() {
    for t in [ActivityType::Phone, ActivityType::Online] {
        assert_eq!(get_activity_type(to_lowercase_ascii(t.as_ref())).unwrap(), t);
    }
    assert!(get_activity_type(to_lowercase_ascii(ActivityType::InPerson.as_ref())).is_err());
}

#[test]
fn edited_contacts_read_back() {
    let cs = vec![
        ContactInfo::new(1, 7, ContactInfoType::Phone("+44 1".to_string())),
        ContactInfo::new(2, 7, ContactInfoType::WhatsApp("55".to_string())),
        ContactInfo::new(3, 7, ContactInfoType::Email("a@b".to_string())),
    ];
    let field = contact_info_field_text(&cs);
    let mut p = person(7, "Zeh", None);
    p.update_details("Zeh".to_string(), None, Some(field)).unwrap();
    assert_eq!(p.contact_info.len(), 3);
    for (new, old) in p.contact_info.iter().zip(cs.iter()) {
        assert_eq!(new.contact_info_type, old.contact_info_type);
        assert_eq!(new.details, old.details);
    }
}

#[test]
fn edited_people_names_read_back() {
    let r = reminder(1, "Call", "2030-03-03", None);
    let text = reminder_editor_text(&r, None, None, None, None).unwrap();
    let (_, _, _, _, names) = prm::cli::edit::read_reminder_edit(&text).unwrap();
    assert_eq!(names, vec!["Ann".to_string(), "Bob".to_string()]);
    let joined = join_strings(&names, ",");
    assert_eq!(split_str(&joined, ','), names);
}
