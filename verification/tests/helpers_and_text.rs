use prm::date::{add_days, parse_flexible, Date, DateParseError};
use prm::db::{contact_info_to_unlink, query_with_list, stale_contact_info_ids, stale_ids};
use prm::entities::activity::ActivityType;
use prm::entities::person::{ContactInfo, ContactInfoType};
use prm::entities::reminder::{RecurringType, Reminder};
use prm::helpers::{
    get_activity_type, get_contact_info, handle_id_selection, parse_from_str_md,
    parse_from_str_ymd, read_choice, repeat_vars, stored_date, unwrap_arg_or_empty_string,
};
use prm::template::fill_template;
use prm::text::{join_strings, split_str, to_lowercase_ascii};
use prm::CliError;

fn strings(v: &[&str]) -> Vec<String> {
    v.iter().map(|s| s.to_string()).collect()
}

#[test]
fn parse_ymd_reads_a_full_date() {
    let d = parse_from_str_ymd("2000-01-31").unwrap();
    assert_eq!((d.year(), d.month(), d.day()), (2000, 1, 31));
    assert_eq!(d.to_iso_string(), "2000-01-31");
    assert_eq!(d.to_compact_string(), "20000131");
}

#[test]
fn parse_ymd_rejects_text_and_impossible_days() {
    assert!(parse_from_str_ymd("not a date").is_err());
    assert!(parse_from_str_ymd("2001-02-29").is_err());
    assert!(parse_from_str_ymd("").is_err());
    assert_eq!(parse_from_str_ymd("2000-01-01x"), Err(DateParseError::TooLong));
}

#[test]
fn parse_md_reads_a_day_of_year_one() {
    let d = parse_from_str_md("03-15").unwrap();
    assert_eq!((d.year(), d.month(), d.day()), (1, 3, 15));
    assert_eq!(d.to_iso_string(), "0001-03-15");
    assert!(parse_from_str_md("2000-03-15").is_err());
}

#[test]
fn flexible_dates_try_the_full_form_first() {
    let full = parse_flexible("1999-12-31").unwrap();
    assert_eq!((full.year(), full.month(), full.day()), (1999, 12, 31));
    let md = parse_flexible("12-31").unwrap();
    assert_eq!((md.year(), md.month(), md.day()), (1, 12, 31));
    assert!(parse_flexible("31/12").is_none());
}

#[test]
fn stored_date_falls_back_to_the_epoch() {
    let d = stored_date("2010-05-06");
    assert_eq!(d.to_iso_string(), "2010-05-06");
    let e = stored_date("garbage");
    assert_eq!(e.to_iso_string(), "1970-01-01");
    assert_eq!(Date::default().to_iso_string(), "1970-01-01");
}

#[test]
fn adding_days_crosses_months_and_years() {
    let d = parse_from_str_ymd("2000-01-01").unwrap();
    assert_eq!(add_days(&d, 31).unwrap().to_iso_string(), "2000-02-01");
    assert_eq!(add_days(&d, 366).unwrap().to_iso_string(), "2001-01-01");
    assert!(add_days(&d, u64::MAX).is_none());
    let later = add_days(&d, 1).unwrap();
    assert!(later.is_after(&d));
    assert!(!d.is_after(&later));
    assert!(!d.is_after(&d));
}

#[test]
fn repeat_vars_writes_placeholders() {
    assert_eq!(repeat_vars(1), "?");
    assert_eq!(repeat_vars(3), "?,?,?");
    let v = repeat_vars(5);
    let pieces = split_str(&v, ',');
    assert_eq!(pieces, vec!["?"; 5]);
    assert_eq!(
        query_with_list("SELECT * FROM people WHERE id IN (", 2, ")"),
        "SELECT * FROM people WHERE id IN (?,?)"
    );
}

#[test]
fn unwrap_arg_gives_the_argument_or_nothing() {
    assert_eq!(unwrap_arg_or_empty_string(Some("x".to_string())), "x");
    assert_eq!(unwrap_arg_or_empty_string(None), "");
}

#[test]
fn split_and_join_are_inverse() {
    for text in ["a,,b", "", ",", "phone:1,email:a@b", "no separator"] {
        let pieces = split_str(text, ',');
        assert_eq!(join_strings(&pieces, ","), text);
    }
    assert_eq!(split_str("a,,b", ','), strings(&["a", "", "b"]));
    assert_eq!(split_str("", ','), strings(&[""]));
}

#[test]
fn lower_case_of_ascii_names() {
    assert_eq!(to_lowercase_ascii("WhatsApp"), "whatsapp");
    assert_eq!(to_lowercase_ascii("OneTime"), "onetime");
}

#[test]
fn activity_types_by_command_line_name() {
    assert_eq!(get_activity_type("phone".to_string()).unwrap(), ActivityType::Phone);
    assert_eq!(get_activity_type("in_person".to_string()).unwrap(), ActivityType::InPerson);
    assert_eq!(get_activity_type("online".to_string()).unwrap(), ActivityType::Online);
    match get_activity_type("Phone".to_string()) {
        Err(CliError::ActivityTypeParse { activity_type }) => assert_eq!(activity_type, "Phone"),
        other => panic!("unexpected {:?}", other),
    }
}

#[test]
fn contact_info_from_splits() {
    let splits = vec![strings(&["phone", "123"]), strings(&["email", "a@b.c"])];
    let cs = get_contact_info(7, splits).unwrap();
    assert_eq!(cs.len(), 2);
    assert_eq!(cs[0].id, 0);
    assert_eq!(cs[0].person_id, 7);
    assert_eq!(cs[0].contact_info_type, ContactInfoType::Phone("123".to_string()));
    assert_eq!(cs[0].details, "123");
    assert_eq!(cs[1].contact_info_type, ContactInfoType::Email("a@b.c".to_string()));
    let bad = vec![strings(&["phone", "1"]), strings(&["fax", "2"]), strings(&["pager", "3"])];
    match get_contact_info(7, bad) {
        Err(CliError::ContactInfoParse { contact_info }) => assert_eq!(contact_info, "fax:2"),
        other => panic!("unexpected {:?}", other),
    }
}

fn reminder(id: u64, name: &str) -> Reminder {
    let date = parse_from_str_ymd("2022-01-01").unwrap();
    Reminder::new(id, name.to_string(), date, None, RecurringType::OneTime, vec![])
}

#[test]
fn id_selection_picks_the_chosen_entity() {
    let rs = vec![reminder(4, "a"), reminder(9, "b"), reminder(9, "c")];
    let chosen = handle_id_selection(rs, Some(9)).unwrap();
    assert_eq!(chosen.len(), 1);
    assert_eq!(chosen[0].name, "b");
}

#[test]
fn id_selection_errors() {
    let rs = vec![reminder(4, "a"), reminder(9, "b")];
    assert_eq!(handle_id_selection(rs, None).err().unwrap().message, "Invalid input");
    let rs = vec![reminder(4, "a"), reminder(9, "b")];
    assert_eq!(handle_id_selection(rs, Some(0)).err().unwrap().message, "Aborted");
    let rs = vec![reminder(4, "a"), reminder(9, "b")];
    assert_eq!(handle_id_selection(rs, Some(5)).err().unwrap().message, "Unknown error");
}

#[test]
fn stale_ids_are_stored_and_not_kept() {
    assert_eq!(stale_ids(&vec![1, 2, 3, 2], &vec![2]), vec![1, 3]);
    assert_eq!(stale_ids(&vec![], &vec![2]), Vec::<u64>::new());
    assert_eq!(stale_ids(&vec![5], &vec![]), vec![5]);
}

#[test]
fn stale_contact_infos_compare_type_and_details() {
    let stored = vec![
        ContactInfo::new(1, 3, ContactInfoType::Phone("1".to_string())),
        ContactInfo::new(2, 3, ContactInfoType::Email("1".to_string())),
        ContactInfo::new(3, 3, ContactInfoType::WhatsApp("9".to_string())),
    ];
    let current = vec![ContactInfo::new(0, 3, ContactInfoType::Phone("1".to_string()))];
    assert_eq!(stale_contact_info_ids(&stored, &current), vec![2, 3]);
}

#[test]
fn templates_are_filled_by_strfmt() {
    let vars = vec![("name".to_string(), "Bob".to_string())];
    assert_eq!(fill_template("Hi {name}!", &vars).unwrap(), "Hi Bob!");
    assert!(fill_template("Hi {other}", &vars).is_none());
    let later_wins = vec![
        ("name".to_string(), "Bob".to_string()),
        ("name".to_string(), "Ann".to_string()),
    ];
    assert_eq!(fill_template("{name}", &later_wins).unwrap(), "Ann");
}

#[test]
fn stored_names_of_variants() {
    assert_eq!(ActivityType::InPerson.as_ref(), "InPerson");
    assert_eq!(ActivityType::from_str("Online"), Some(ActivityType::Online));
    assert_eq!(ActivityType::from_str("online"), None);
    assert_eq!(RecurringType::OneTime.as_ref(), "OneTime");
    assert_eq!(RecurringType::from_str("Biannual"), Some(RecurringType::Biannual));
    assert_eq!(RecurringType::from_cli_name("fortnightly"), Some(RecurringType::Fortnightly));
    assert_eq!(RecurringType::from_cli_name("Fortnightly"), None);
    assert_eq!(ContactInfoType::Email("x".to_string()).as_ref(), "Email");
    assert_eq!(ContactInfoType::from_str("WhatsApp"), Some(ContactInfoType::WhatsApp(String::new())));
    assert_eq!(ContactInfoType::from_str("whatsapp"), None);
}

#[test]
fn printed_dates_read_back() {
    for text in ["0001-03-15", "2000-02-29", "1999-12-31", "-0044-03-15", "+10000-01-01", "0000-01-01"] {
        let d = parse_from_str_ymd(text).unwrap();
        assert_eq!(d.to_iso_string(), text);
        assert_eq!(parse_from_str_ymd(&d.to_iso_string()).unwrap(), d);
        assert_eq!(parse_flexible(&d.to_iso_string()).unwrap(), d);
    }
    let far = parse_from_str_ymd("+10000-01-01").unwrap();
    assert_eq!(far.to_compact_string(), "+100000101");
}

#[test]
fn typed_choices() {
    assert_eq!(read_choice(" 3\n"), Some(3));
    assert_eq!(read_choice("+4"), Some(4));
    assert_eq!(read_choice("\u{3000}7\t"), Some(7));
    assert_eq!(read_choice("x"), None);
    assert_eq!(read_choice(""), None);
    assert_eq!(read_choice("-1"), None);
}

#[test]
fn saving_without_contacts_unlinks_nothing() {
    let stored = vec![ContactInfo::new(1, 3, ContactInfoType::Phone("1".to_string()))];
    assert!(contact_info_to_unlink(&stored, &vec![]).is_empty());
    let current = vec![ContactInfo::new(0, 3, ContactInfoType::Email("e".to_string()))];
    assert_eq!(contact_info_to_unlink(&stored, &current), vec![1]);
}

#[test]
fn contact_info_reads_every_known_split() {
    let splits = vec![strings(&["whatsapp", "1"]), strings(&["phone", "2"]), strings(&["email", "3"])];
    let cs = get_contact_info(4, splits).unwrap();
    assert_eq!(cs.len(), 3);
    assert_eq!(cs[2].contact_info_type, ContactInfoType::Email("3".to_string()));
    let bad = vec![strings(&["phone", "1"]), strings(&["Phone", "2"])];
    match get_contact_info(4, bad) {
        Err(CliError::ContactInfoParse { contact_info }) => assert_eq!(contact_info, "Phone:2"),
        other => panic!("unexpected {:?}", other),
    }
}
