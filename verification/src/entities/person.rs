//! People and the ways to reach them.
use vstd::prelude::*;

use crate::date::{flexible_date, iso_date_text, parse_flexible, Date};
use crate::entities::activity::{activity_type_name, Activity};
use crate::entities::note::Note;
use crate::entities::reminder::Reminder;
use crate::entities::Entity;
use crate::helpers::get_contact_info;
use crate::text::{
    decimal, push_decimal, join_strings, join_with, push_str, string_of, char_seqs, lines_of, lines_vec, parse_ids, parse_ids_spec, split_chars, split_str,
    split_to_strings, split_vec, starts_with, starts_with_vec, string_seqs, strip_prefix_text,
    to_chars, trim_start_matches, trim_start_matches_vec,
};
use crate::CliError;

verus! {

/// The text the editor opens for a person.
pub const PERSON_TEMPLATE: &'static str = "Name: {name}\nBirthday: {birthday}\nContact Info: {contact_info}\nActivities: {activities}\nReminders: {reminders}\n";

/// A person and everything kept about them.
#[derive(Debug, PartialEq)]
pub struct Person {
    pub id: u64,
    pub name: String,
    pub birthday: Option<Date>,
    pub contact_info: Vec<ContactInfo>,
    pub activities: Vec<Activity>,
    pub reminders: Vec<Reminder>,
    pub notes: Vec<Note>,
}

/// What the editor gave back for a person.
pub struct EditorData {
    pub name: String,
    pub birthday: Option<String>,
    pub contact_info: Vec<String>,
    pub activities: Vec<u64>,
    pub reminders: Vec<u64>,
}

impl Entity for Person {
    open spec fn spec_id(&self) -> u64 {
        self.id
    }

    fn get_id(&self) -> (id: u64) {
        self.id
    }
}

/// The three ways to reach a person.
#[derive(Debug, Clone, Copy, PartialEq, Eq)]
pub enum ContactInfoKind {
    Phone,
    WhatsApp,
    Email,
}

/// A way to reach a person, with its address or number.
#[derive(Debug, Clone, PartialEq)]
pub enum ContactInfoType {
    Phone(String),
    WhatsApp(String),
    Email(String),
}

/// The name of a kind of contact info, as stored and printed.
pub open spec fn contact_kind_name(k: ContactInfoKind) -> Seq<char> {
    match k {
        ContactInfoKind::Phone => "Phone"@,
        ContactInfoKind::WhatsApp => "WhatsApp"@,
        ContactInfoKind::Email => "Email"@,
    }
}

/// The kind that a lower-case tag on the command line stands for.
pub open spec fn contact_kind_from_tag(tag: Seq<char>) -> Option<ContactInfoKind> {
    if tag == "phone"@ {
        Some(ContactInfoKind::Phone)
    } else if tag == "whatsapp"@ {
        Some(ContactInfoKind::WhatsApp)
    } else if tag == "email"@ {
        Some(ContactInfoKind::Email)
    } else {
        None
    }
}

/// The kind whose stored name is `name`.
pub open spec fn contact_kind_from_name(name: Seq<char>) -> Option<ContactInfoKind> {
    if name == "Phone"@ {
        Some(ContactInfoKind::Phone)
    } else if name == "WhatsApp"@ {
        Some(ContactInfoKind::WhatsApp)
    } else if name == "Email"@ {
        Some(ContactInfoKind::Email)
    } else {
        None
    }
}

impl ContactInfoType {
    /// The kind of contact info.
    pub open spec fn kind(&self) -> ContactInfoKind {
        match self {
            ContactInfoType::Phone(_) => ContactInfoKind::Phone,
            ContactInfoType::WhatsApp(_) => ContactInfoKind::WhatsApp,
            ContactInfoType::Email(_) => ContactInfoKind::Email,
        }
    }

    /// The address or number it holds.
    pub open spec fn value(&self) -> Seq<char> {
        match self {
            ContactInfoType::Phone(v) => v@,
            ContactInfoType::WhatsApp(v) => v@,
            ContactInfoType::Email(v) => v@,
        }
    }

    /// A contact info of the given kind and value.
    pub fn of_kind(kind: ContactInfoKind, value: String) -> (t: ContactInfoType)
        ensures
            t.kind() == kind,
            t.value() == value@,
    {
        match kind {
            ContactInfoKind::Phone => ContactInfoType::Phone(value),
            ContactInfoKind::WhatsApp => ContactInfoType::WhatsApp(value),
            ContactInfoKind::Email => ContactInfoType::Email(value),
        }
    }

    /// The name of the variant, as it is stored in the database.
    pub fn as_ref(&self) -> (s: &'static str)
        ensures
            s@ == contact_kind_name(self.kind()),
    {
        match self {
            ContactInfoType::Phone(_) => "Phone",
            ContactInfoType::WhatsApp(_) => "WhatsApp",
            ContactInfoType::Email(_) => "Email",
        }
    }

    /// The variant with a stored name, holding an empty value.
    pub fn from_str(name: &str) -> (r: Option<ContactInfoType>)
        ensures
            r is Some <==> contact_kind_from_name(name@) is Some,
            r matches Some(t) ==> Some(t.kind()) == contact_kind_from_name(name@) && t.value()
                == Seq::<char>::empty(),
    {
        if crate::text::str_eq(name, "Phone") {
            Some(ContactInfoType::Phone(String::new()))
        } else if crate::text::str_eq(name, "WhatsApp") {
            Some(ContactInfoType::WhatsApp(String::new()))
        } else if crate::text::str_eq(name, "Email") {
            Some(ContactInfoType::Email(String::new()))
        } else {
            None
        }
    }
}

/// A stored way to reach a person.
#[derive(Debug, Clone, PartialEq)]
pub struct ContactInfo {
    pub id: u64,
    pub person_id: u64,
    pub contact_info_type: ContactInfoType,
    pub details: String,
}

/// A contact info seen as (id, person id, kind, value, details).
pub type ContactInfoView = (u64, u64, ContactInfoKind, Seq<char>, Seq<char>);

impl View for ContactInfo {
    type V = ContactInfoView;

    open spec fn view(&self) -> ContactInfoView {
        (
            self.id,
            self.person_id,
            self.contact_info_type.kind(),
            self.contact_info_type.value(),
            self.details@,
        )
    }
}

/// The contact infos of a list, each seen through its view.
pub open spec fn contact_views(v: Seq<ContactInfo>) -> Seq<ContactInfoView> {
    v.map_values(|c: ContactInfo| c@)
}

/// New contact infos with id 0 for a person, one per (kind, value) entry.
pub open spec fn new_contact_views(person_id: u64, entries: Seq<(ContactInfoKind, Seq<char>)>) -> Seq<
    ContactInfoView,
> {
    entries.map_values(
        |e: (ContactInfoKind, Seq<char>)| (0u64, person_id, e.0, e.1, e.1),
    )
}

impl ContactInfo {
    /// A contact info whose details are the value it holds.
    pub fn new(id: u64, person_id: u64, contact_info_type: ContactInfoType) -> (c: ContactInfo)
        ensures
            c@ == (
                id,
                person_id,
                contact_info_type.kind(),
                contact_info_type.value(),
                contact_info_type.value(),
            ),
            c.contact_info_type == contact_info_type,
    {
        let details = match &contact_info_type {
            ContactInfoType::Phone(value) => value.clone(),
            ContactInfoType::WhatsApp(value) => value.clone(),
            ContactInfoType::Email(value) => value.clone(),
        };
        ContactInfo { id, person_id, contact_info_type, details }
    }

    /// Appends to `splits`, for each entry of `list`, its pieces between colons.
    pub fn populate_splits(splits: &mut Vec<Vec<String>>, list: &mut [String])
        ensures
            nested_seqs(final(splits)@) == nested_seqs(old(splits)@) + string_seqs(
                old(list)@,
            ).map_values(|s: Seq<char>| split_chars(s, ':')),
            final(list)@ == old(list)@,
    {
        let mut i: usize = 0;
        while i < list.len()
            invariant
                0 <= i <= list@.len(),
                list@ == old(list)@,
                nested_seqs(splits@) == nested_seqs(old(splits)@) + string_seqs(
                    list@,
                ).take(i as int).map_values(|s: Seq<char>| split_chars(s, ':')),
            decreases list@.len() - i,
        {
            let pieces = split_str(list[i].as_str(), ':');
            let ghost before = nested_seqs(splits@);
            splits.push(pieces);
            i = i + 1;
            assert(nested_seqs(splits@) =~= before.push(split_chars(list@[i - 1]@, ':')));
            assert(string_seqs(list@).take(i as int) =~= string_seqs(list@).take(i - 1).push(
                list@[i - 1]@,
            ));
            assert(string_seqs(list@).take(i as int).map_values(
                |s: Seq<char>| split_chars(s, ':'),
            ) =~= string_seqs(list@).take(i - 1).map_values(|s: Seq<char>| split_chars(s, ':')).push(
                split_chars(list@[i - 1]@, ':'),
            ));
        }
        assert(string_seqs(list@).take(list@.len() as int) == string_seqs(list@));
    }
}

/// The pieces of each list of strings.
pub open spec fn nested_seqs(v: Seq<Vec<String>>) -> Seq<Seq<Seq<char>>> {
    v.map_values(|x: Vec<String>| string_seqs(x@))
}

/// The (kind, value) entries that `type:value` splits stand for, or the first
/// entry with an unknown type, written back as `type:value`.
pub open spec fn contact_info_entries(splits: Seq<Seq<Seq<char>>>) -> Result<
    Seq<(ContactInfoKind, Seq<char>)>,
    Seq<char>,
>
    decreases splits.len(),
{
    if splits.len() == 0 {
        Ok(Seq::empty())
    } else {
        match contact_info_entries(splits.drop_last()) {
            Err(e) => Err(e),
            Ok(prev) => {
                let last = splits.last();
                match contact_kind_from_tag(last[0]) {
                    Some(k) => Ok(prev.push((k, last[1]))),
                    None => Err(last[0] + seq![':'] + last[1]),
                }
            },
        }
    }
}

/// Whether every split has a type and a value.
pub open spec fn splits_complete(splits: Seq<Seq<Seq<char>>>) -> bool {
    forall|i: int| 0 <= i < splits.len() ==> #[trigger] splits[i].len() >= 2
}

/// Whether the type of every split is `phone`, `whatsapp` or `email`.
pub open spec fn known_tags(splits: Seq<Seq<Seq<char>>>) -> bool {
    forall|i: int| 0 <= i < splits.len() ==> contact_kind_from_tag((#[trigger] splits[i])[0]) is Some
}

/// Every split that the reading of contact infos reaches has a type and a
/// value: the reading stops at the first unknown type.
pub open spec fn contact_splits_ok(splits: Seq<Seq<Seq<char>>>) -> bool
    decreases splits.len(),
{
    splits.len() == 0 || (contact_splits_ok(splits.drop_last()) && (contact_info_entries(
        splits.drop_last(),
    ) is Ok ==> splits.last().len() >= 2))
}

/// Every prefix of splits that are safe to read is safe to read.
pub proof fn lemma_contact_splits_ok_prefix(splits: Seq<Seq<Seq<char>>>, k: int)
    requires
        contact_splits_ok(splits),
        0 <= k <= splits.len(),
    ensures
        contact_splits_ok(splits.take(k)),
    decreases splits.len() - k,
{
    if k < splits.len() {
        lemma_contact_splits_ok_prefix(splits, k + 1);
        assert(splits.take(k + 1).drop_last() == splits.take(k));
    } else {
        assert(splits.take(k) == splits);
    }
}

/// Whether every `type:value` split that reading a contact info text reaches
/// has a type and a value; reading it is safe exactly then.
pub fn contact_info_text_ok(text: &str) -> (b: bool)
    ensures
        b == contact_splits_ok(contact_splits(text@)),
{
    let pieces = split_str(text, ',');
    let ghost all = contact_splits(text@);
    let mut i: usize = 0;
    let mut reading = true;
    assert(all.take(0) =~= Seq::<Seq<Seq<char>>>::empty());
    while i < pieces.len()
        invariant
            0 <= i <= pieces@.len(),
            string_seqs(pieces@) == split_chars(text@, ','),
            all == contact_splits(text@),
            all.len() == pieces@.len(),
            contact_splits_ok(all.take(i as int)),
            reading == (contact_info_entries(all.take(i as int)) is Ok),
        decreases pieces@.len() - i,
    {
        let parts = split_str(pieces[i].as_str(), ':');
        assert(string_seqs(parts@) == all[i as int]);
        assert(all.take(i + 1).drop_last() =~= all.take(i as int));
        assert(all.take(i + 1).last() == all[i as int]);
        if reading {
            if parts.len() < 2 {
                proof {
                    lemma_not_ok_stays(all, i + 1);
                }
                return false;
            }
            let tag = parts[0].as_str();
            if !(crate::text::str_eq(tag, "phone") || crate::text::str_eq(tag, "whatsapp")
                || crate::text::str_eq(tag, "email")) {
                reading = false;
            }
        }
        i = i + 1;
    }
    assert(all.take(pieces@.len() as int) =~= all);
    true
}

/// Once a prefix of splits is not safe to read, no longer one is.
proof fn lemma_not_ok_stays(all: Seq<Seq<Seq<char>>>, k: int)
    requires
        0 <= k <= all.len(),
        !contact_splits_ok(all.take(k)),
    ensures
        !contact_splits_ok(all),
    decreases all.len() - k,
{
    if k < all.len() {
        assert(all.take(k + 1).drop_last() =~= all.take(k));
        lemma_not_ok_stays(all, k + 1);
    } else {
        assert(all.take(k) =~= all);
    }
}

/// The `type:value` splits of a comma-separated contact info text.
pub open spec fn contact_splits(s: Seq<char>) -> Seq<Seq<Seq<char>>> {
    split_chars(s, ',').map_values(|p: Seq<char>| split_chars(p, ':'))
}

impl Person {
    /// A person with the given fields and no notes.
    pub fn new(
        id: u64,
        name: String,
        birthday: Option<Date>,
        contact_info: Vec<ContactInfo>,
        activities: Vec<Activity>,
        reminders: Vec<Reminder>,
    ) -> (p: Person)
        ensures
            p.id == id,
            p.name == name,
            p.birthday == birthday,
            p.contact_info == contact_info,
            p.activities == activities,
            p.reminders == reminders,
            p.notes@.len() == 0,
    {
        Person { id, name, birthday, contact_info, activities, reminders, notes: Vec::new() }
    }

    /// Sets the name, then the birthday if one is given (a full date, or a
    /// month and a day), then the contact infos from a comma-separated
    /// `type:value` text (none if no text is given), then the activities and
    /// reminders. A birthday that is not a date, or an unknown contact info
    /// type, stops the update there with an error.
    pub fn update(
        &mut self,
        name: String,
        birthday: Option<String>,
        contact_info: Option<String>,
        activities: Vec<Activity>,
        reminders: Vec<Reminder>,
    ) -> (r: Result<(), CliError>)
        requires
            contacts_reachable_ok(opt_view(birthday), opt_view(contact_info)),
        ensures
            details_updated(
                *old(self),
                *final(self),
                r,
                name@,
                opt_view(birthday),
                opt_view(contact_info),
            ),
            r is Ok ==> final(self).activities == activities && final(self).reminders == reminders,
            r is Err ==> final(self).activities == old(self).activities && final(self).reminders
                == old(self).reminders,
    {
        self.update_details(name, birthday, contact_info)?;
        self.activities = activities;
        self.reminders = reminders;
        Ok(())
    }

    /// Sets the name, then the birthday if one is given (a full date, or a
    /// month and a day), then the contact infos from a comma-separated
    /// `type:value` text (none if no text is given). A birthday that is not
    /// a date, or an unknown contact info type, stops there with an error.
    pub fn update_details(
        &mut self,
        name: String,
        birthday: Option<String>,
        contact_info: Option<String>,
    ) -> (r: Result<(), CliError>)
        requires
            contacts_reachable_ok(opt_view(birthday), opt_view(contact_info)),
        ensures
            details_updated(
                *old(self),
                *final(self),
                r,
                name@,
                opt_view(birthday),
                opt_view(contact_info),
            ),
            final(self).activities == old(self).activities,
            final(self).reminders == old(self).reminders,
    {
        self.name = name;
        if let Some(birthday) = birthday {
            match parse_flexible(birthday.as_str()) {
                Some(date) => {
                    self.birthday = Some(date);
                },
                None => {
                    return Err(CliError::BirthdayParse { birthday });
                },
            }
        }
        let mut contact_info_splits: Vec<Vec<String>> = Vec::new();
        match contact_info {
            Some(text) => {
                let pieces = split_str(text.as_str(), ',');
                let mut i: usize = 0;
                while i < pieces.len()
                    invariant
                        0 <= i <= pieces@.len(),
                        string_seqs(pieces@) == split_chars(text@, ','),
                        nested_seqs(contact_info_splits@) == string_seqs(pieces@).take(
                            i as int,
                        ).map_values(|p: Seq<char>| split_chars(p, ':')),
                    decreases pieces@.len() - i,
                {
                    let parts = split_str(pieces[i].as_str(), ':');
                    let ghost before = nested_seqs(contact_info_splits@);
                    contact_info_splits.push(parts);
                    i = i + 1;
                    assert(nested_seqs(contact_info_splits@) =~= before.push(
                        split_chars(pieces@[i - 1]@, ':'),
                    ));
                    assert(string_seqs(pieces@).take(i as int) =~= string_seqs(pieces@).take(
                        i - 1,
                    ).push(pieces@[i - 1]@));
                    assert(string_seqs(pieces@).take(i as int).map_values(
                        |p: Seq<char>| split_chars(p, ':'),
                    ) =~= string_seqs(pieces@).take(i - 1).map_values(
                        |p: Seq<char>| split_chars(p, ':'),
                    ).push(split_chars(pieces@[i - 1]@, ':')));
                }
                assert(string_seqs(pieces@).take(pieces@.len() as int) == string_seqs(pieces@));
                assert(nested_seqs(contact_info_splits@) == contact_splits(text@));
                proof {
                    crate::text::lemma_split_nonempty(text@, ',');
                }
            },
            None => {},
        }
        let mut contact_info_vec: Vec<ContactInfo> = Vec::new();
        if contact_info_splits.len() != 0 {
            contact_info_vec = get_contact_info(self.id, contact_info_splits)?;
        }
        self.contact_info = contact_info_vec;
        Ok(())
    }
}

/// What updating the name, birthday and contact infos of `old` into `new`
/// does: the name is set; a birthday that is given must read as a date
/// (else the update stops with an error quoting it); contact infos are read
/// from the text (none without text), and an unknown type stops the update
/// with an error quoting it.
pub open spec fn details_updated(
    old: Person,
    new: Person,
    r: Result<(), CliError>,
    name: Seq<char>,
    birthday: Option<Seq<char>>,
    contact_info: Option<Seq<char>>,
) -> bool {
    &&& new.id == old.id
    &&& new.name@ == name
    &&& new.notes == old.notes
    &&& match birthday {
        Some(b) => match flexible_date(b) {
            None => {
                &&& r matches Err(CliError::BirthdayParse { birthday: x })
                &&& r->Err_0->birthday@ == b
                &&& new.birthday == old.birthday
                &&& new.contact_info == old.contact_info
            },
            Some(d) => new.birthday matches Some(nb) && nb@ == d && contact_info_updated(
                old,
                new,
                r,
                contact_info,
            ),
        },
        None => new.birthday == old.birthday && contact_info_updated(old, new, r, contact_info),
    }
}

/// Whether reading the contact info text is safe where the update reaches
/// it: a birthday that does not read stops the update before the contact
/// infos are read; otherwise every `type:value` split that the reading
/// reaches has a type and a value.
pub open spec fn contacts_reachable_ok(birthday: Option<Seq<char>>, contact_info: Option<Seq<char>>) -> bool {
    let reached = match birthday {
        Some(b) => flexible_date(b) is Some,
        None => true,
    };
    reached ==> match contact_info {
        Some(s) => contact_splits_ok(contact_splits(s)),
        None => true,
    }
}

/// The optional text of an optional string.
pub open spec fn opt_view(o: Option<String>) -> Option<Seq<char>> {
    match o {
        Some(s) => Some(s@),
        None => None,
    }
}

/// The contact infos read from the text: none without text, an error quoting
/// the first unknown type, or else one new contact info per entry.
pub open spec fn contact_info_updated(
    old: Person,
    new: Person,
    r: Result<(), CliError>,
    contact_info: Option<Seq<char>>,
) -> bool {
    match contact_info {
        None => r is Ok && new.contact_info@.len() == 0,
        Some(s) => match contact_info_entries(contact_splits(s)) {
            Err(e) => {
                &&& r matches Err(CliError::ContactInfoParse { contact_info: c })
                &&& r->Err_0->contact_info@ == e
                &&& new.contact_info == old.contact_info
            },
            Ok(entries) => r is Ok && contact_views(new.contact_info@) == new_contact_views(
                old.id,
                entries,
            ),
        },
    }
}

/// The fields read so far from an edited person text, and the last error.
pub struct PersonEditorFields {
    pub name: Seq<char>,
    pub birthday: Option<Seq<char>>,
    pub contact_info: Seq<Seq<char>>,
    pub activities: Seq<u64>,
    pub reminders: Seq<u64>,
    pub error: Option<CliError>,
}

/// Nothing read yet.
pub open spec fn person_editor_start() -> PersonEditorFields {
    PersonEditorFields {
        name: Seq::empty(),
        birthday: None,
        contact_info: Seq::empty(),
        activities: Seq::empty(),
        reminders: Seq::empty(),
        error: None,
    }
}

/// What one line of an edited person text changes: the line that starts
/// with a field's label sets that field (the last such line wins), ids that
/// are not numbers and lines without a label record an error.
pub open spec fn person_editor_step(st: PersonEditorFields, line: Seq<char>) -> PersonEditorFields {
    if starts_with(line, "Name: "@) {
        PersonEditorFields { name: trim_start_matches(line, "Name: "@), ..st }
    } else if starts_with(line, "Birthday: "@) {
        PersonEditorFields { birthday: Some(trim_start_matches(line, "Birthday: "@)), ..st }
    } else if starts_with(line, "Contact Info: "@) {
        PersonEditorFields {
            contact_info: split_chars(trim_start_matches(line, "Contact Info: "@), ','),
            ..st
        }
    } else if starts_with(line, "Activities: "@) {
        match parse_ids_spec(split_chars(trim_start_matches(line, "Activities: "@), ',')) {
            Some(ids) => PersonEditorFields { activities: ids, ..st },
            None => PersonEditorFields { error: Some(CliError::InvalidIdFormat), ..st },
        }
    } else if starts_with(line, "Reminders: "@) {
        match parse_ids_spec(split_chars(trim_start_matches(line, "Reminders: "@), ',')) {
            Some(ids) => PersonEditorFields { reminders: ids, ..st },
            None => PersonEditorFields { error: Some(CliError::InvalidIdFormat), ..st },
        }
    } else {
        PersonEditorFields { error: Some(CliError::FormatError), ..st }
    }
}

/// The fields read from the given lines, in order.
pub open spec fn person_editor_fold(lines: Seq<Seq<char>>) -> PersonEditorFields
    decreases lines.len(),
{
    if lines.len() == 0 {
        person_editor_start()
    } else {
        person_editor_step(person_editor_fold(lines.drop_last()), lines.last())
    }
}

/// Whether `d` holds the fields that were read.
pub open spec fn editor_data_holds(d: EditorData, st: PersonEditorFields) -> bool {
    &&& d.name@ == st.name
    &&& match st.birthday {
        Some(b) => d.birthday matches Some(x) && x@ == b,
        None => d.birthday is None,
    }
    &&& string_seqs(d.contact_info@) == st.contact_info
    &&& d.activities@ == st.activities
    &&& d.reminders@ == st.reminders
}

impl Person {
    /// Reads a person back from the text the editor returns: one field per
    /// line, each after its label. A line without a label gives a format
    /// error and ids that are not numbers an id error; the last error found
    /// is the one returned.
    pub fn parse_from_editor(content: &str) -> (r: Result<EditorData, CliError>)
        ensures
            ({
                let st = person_editor_fold(lines_of(content@));
                match st.error {
                    Some(e) => r == Err::<EditorData, CliError>(e),
                    None => r matches Ok(d) && editor_data_holds(d, st),
                }
            }),
    {
        let chars = to_chars(content);
        let lines = lines_vec(&chars);
        let name_prefix = to_chars("Name: ");
        let birthday_prefix = to_chars("Birthday: ");
        let contact_info_prefix = to_chars("Contact Info: ");
        let activities_prefix = to_chars("Activities: ");
        let reminders_prefix = to_chars("Reminders: ");
        let mut error: Option<CliError> = None;
        let mut name: String = String::new();
        let mut birthday: Option<String> = None;
        let mut contact_info: Vec<String> = Vec::new();
        let mut activity_ids: Vec<u64> = Vec::new();
        let mut reminder_ids: Vec<u64> = Vec::new();
        let ghost all = char_seqs(lines@);
        assert(all.take(0) =~= Seq::<Seq<char>>::empty());
        assert(string_seqs(contact_info@) =~= Seq::<Seq<char>>::empty());
        let mut i: usize = 0;
        while i < lines.len()
            invariant
                0 <= i <= lines@.len(),
                all == char_seqs(lines@),
                name_prefix@ == "Name: "@,
                birthday_prefix@ == "Birthday: "@,
                contact_info_prefix@ == "Contact Info: "@,
                activities_prefix@ == "Activities: "@,
                reminders_prefix@ == "Reminders: "@,
                ({
                    let st = person_editor_fold(all.take(i as int));
                    &&& error == st.error
                    &&& editor_data_holds(
                        EditorData {
                            name,
                            birthday,
                            contact_info,
                            activities: activity_ids,
                            reminders: reminder_ids,
                        },
                        st,
                    )
                }),
            decreases lines@.len() - i,
        {
            let line = &lines[i];
            assert(all.take(i + 1).drop_last() == all.take(i as int));
            assert(all[i as int] == line@);
            if starts_with_vec(line, &name_prefix) {
                name = strip_prefix_text(line, &name_prefix);
            } else if starts_with_vec(line, &birthday_prefix) {
                birthday = Some(strip_prefix_text(line, &birthday_prefix));
            } else if starts_with_vec(line, &contact_info_prefix) {
                let text = trim_start_matches_vec(line, &contact_info_prefix);
                contact_info = split_to_strings(&text, ',');
            } else if starts_with_vec(line, &activities_prefix) {
                let text = trim_start_matches_vec(line, &activities_prefix);
                let pieces = split_vec(&text, ',');
                match parse_ids(&pieces) {
                    Some(ids) => {
                        activity_ids = ids;
                    },
                    None => {
                        error = Some(CliError::InvalidIdFormat);
                    },
                }
            } else if starts_with_vec(line, &reminders_prefix) {
                let text = trim_start_matches_vec(line, &reminders_prefix);
                let pieces = split_vec(&text, ',');
                match parse_ids(&pieces) {
                    Some(ids) => {
                        reminder_ids = ids;
                    },
                    None => {
                        error = Some(CliError::InvalidIdFormat);
                    },
                }
            } else {
                error = Some(CliError::FormatError);
            }
            i = i + 1;
        }
        assert(all.take(lines@.len() as int) == all);
        if let Some(error) = error {
            return Err(error);
        }
        Ok(
            EditorData {
                name,
                birthday,
                contact_info,
                activities: activity_ids,
                reminders: reminder_ids,
            },
        )
    }
}

/// One `name:` line per person, each after a new line and a tab.
pub open spec fn people_lines(ps: Seq<Person>) -> Seq<char>
    decreases ps.len(),
{
    if ps.len() == 0 {
        Seq::empty()
    } else {
        people_lines(ps.drop_last()) + "\n\t"@ + "name: "@ + ps.last().name@
    }
}

/// Appends one `name:` line per person.
pub fn push_people_lines(s: &mut String, people: &Vec<Person>)
    ensures
        final(s)@ == old(s)@ + people_lines(people@),
{
    let mut i: usize = 0;
    while i < people.len()
        invariant
            0 <= i <= people@.len(),
            s@ == old(s)@ + people_lines(people@.take(i as int)),
        decreases people@.len() - i,
    {
        push_str(s, "\n\t");
        push_str(s, "name: ");
        push_str(s, people[i].name.as_str());
        i = i + 1;
        assert(people@.take(i as int).drop_last() == people@.take(i - 1));
    }
    assert(people@.take(people@.len() as int) == people@);
}

/// The names of the people.
pub open spec fn people_names(ps: Seq<Person>) -> Seq<Seq<char>> {
    ps.map_values(|p: Person| p.name@)
}

/// The names of the people, joined with a separator.
pub fn join_people_names(people: &Vec<Person>, sep: &str) -> (s: String)
    ensures
        s@ == join_with(people_names(people@), sep@),
{
    let mut names: Vec<String> = Vec::new();
    let mut i: usize = 0;
    while i < people.len()
        invariant
            0 <= i <= people@.len(),
            string_seqs(names@) == people_names(people@.take(i as int)),
        decreases people@.len() - i,
    {
        let ghost before = string_seqs(names@);
        names.push(string_of(people[i].name.as_str()));
        i = i + 1;
        assert(string_seqs(names@) =~= before.push(people@[i - 1].name@));
        assert(people@.take(i as int) =~= people@.take(i - 1).push(people@[i - 1]));
        assert(people_names(people@.take(i as int)) =~= people_names(people@.take(i - 1)).push(
            people@[i - 1].name@,
        ));
    }
    assert(people@.take(people@.len() as int) == people@);
    join_strings(&names, sep)
}

/// One line per contact info: its kind and its details.
pub open spec fn contact_info_lines(cs: Seq<ContactInfo>) -> Seq<char>
    decreases cs.len(),
{
    if cs.len() == 0 {
        Seq::empty()
    } else {
        contact_info_lines(cs.drop_last()) + "\n\t"@ + contact_kind_name(
            cs.last().contact_info_type.kind(),
        ) + ": "@ + cs.last().details@
    }
}

/// Appends one line per contact info.
pub fn push_contact_info_lines(s: &mut String, cs: &Vec<ContactInfo>)
    ensures
        final(s)@ == old(s)@ + contact_info_lines(cs@),
{
    let mut i: usize = 0;
    while i < cs.len()
        invariant
            0 <= i <= cs@.len(),
            s@ == old(s)@ + contact_info_lines(cs@.take(i as int)),
        decreases cs@.len() - i,
    {
        push_str(s, "\n\t");
        push_str(s, cs[i].contact_info_type.as_ref());
        push_str(s, ": ");
        push_str(s, cs[i].details.as_str());
        i = i + 1;
        assert(cs@.take(i as int).drop_last() == cs@.take(i - 1));
    }
    assert(cs@.take(cs@.len() as int) == cs@);
}

/// How an activity of a person is printed.
pub open spec fn activity_block(a: Activity) -> Seq<char> {
    "\n\t"@ + "name: "@ + a.name@ + "\n\t"@ + "date: "@ + iso_date_text(a.date@.0, a.date@.1, a.date@.2)
        + "\n\t"@ + "activity type: "@ + activity_type_name(a.activity_type) + "\n\t"@ + "content: "@
        + a.content@ + "\n\t"@ + "people: "@ + join_with(people_names(a.people@), ","@) + "\n\t"@
}

/// How the activities of a person are printed, in order.
pub open spec fn activity_blocks(v: Seq<Activity>) -> Seq<char>
    decreases v.len(),
{
    if v.len() == 0 {
        Seq::empty()
    } else {
        activity_blocks(v.drop_last()) + activity_block(v.last())
    }
}

/// How a reminder of a person is printed.
pub open spec fn reminder_block(r: Reminder) -> Seq<char> {
    "\n\t"@ + "name: "@ + r.name@ + "\n\t"@ + "date: "@ + iso_date_text(r.date@.0, r.date@.1, r.date@.2)
        + "\n\t"@ + match r.description {
        Some(d) => "description: "@ + d@ + "\n\t"@,
        None => Seq::empty(),
    }
}

/// How the reminders of a person are printed, in order.
pub open spec fn reminder_blocks(v: Seq<Reminder>) -> Seq<char>
    decreases v.len(),
{
    if v.len() == 0 {
        Seq::empty()
    } else {
        reminder_blocks(v.drop_last()) + reminder_block(v.last())
    }
}

/// How a note of a person is printed.
pub open spec fn note_block(n: Note) -> Seq<char> {
    "\n\t"@ + "date: "@ + iso_date_text(n.date@.0, n.date@.1, n.date@.2) + "\n\t"@ + "content: "@
        + n.content@ + "\n\t"@
}

/// How the notes of a person are printed, in order.
pub open spec fn note_blocks(v: Seq<Note>) -> Seq<char>
    decreases v.len(),
{
    if v.len() == 0 {
        Seq::empty()
    } else {
        note_blocks(v.drop_last()) + note_block(v.last())
    }
}

/// A person as it is printed.
pub open spec fn person_text(p: Person) -> Seq<char> {
    "person id: "@ + decimal(p.id as nat) + "\nname: "@ + p.name@ + "\nbirthday: "@ + match p.birthday {
        Some(b) => iso_date_text(b@.0, b@.1, b@.2),
        None => Seq::empty(),
    } + "\ncontact_info: "@ + contact_info_lines(p.contact_info@) + "\nactivities: "@
        + activity_blocks(p.activities@) + "\nreminders: "@ + reminder_blocks(p.reminders@)
        + "\nnotes: "@ + note_blocks(p.notes@) + "\n"@
}

/// Appends how an activity of a person is printed.
fn push_activity_block(s: &mut String, a: &Activity)
    ensures
        final(s)@ == old(s)@ + activity_block(*a),
{
    push_str(s, "\n\t");
    push_str(s, "name: ");
    push_str(s, a.name.as_str());
    push_str(s, "\n\t");
    push_str(s, "date: ");
    let date = a.date.to_iso_string();
    push_str(s, date.as_str());
    push_str(s, "\n\t");
    push_str(s, "activity type: ");
    push_str(s, a.activity_type.as_ref());
    push_str(s, "\n\t");
    push_str(s, "content: ");
    push_str(s, a.content.as_str());
    push_str(s, "\n\t");
    push_str(s, "people: ");
    let names = join_people_names(&a.people, ",");
    push_str(s, names.as_str());
    push_str(s, "\n\t");
    assert(s@ =~= old(s)@ + activity_block(*a));
}

/// Appends how a reminder of a person is printed.
fn push_reminder_block(s: &mut String, r: &Reminder)
    ensures
        final(s)@ == old(s)@ + reminder_block(*r),
{
    push_str(s, "\n\t");
    push_str(s, "name: ");
    push_str(s, r.name.as_str());
    push_str(s, "\n\t");
    push_str(s, "date: ");
    let date = r.date.to_iso_string();
    push_str(s, date.as_str());
    push_str(s, "\n\t");
    match &r.description {
        Some(d) => {
            push_str(s, "description: ");
            push_str(s, d.as_str());
            push_str(s, "\n\t");
        },
        None => {},
    }
    assert(s@ =~= old(s)@ + reminder_block(*r));
}

/// Appends how a note of a person is printed.
fn push_note_block(s: &mut String, n: &Note)
    ensures
        final(s)@ == old(s)@ + note_block(*n),
{
    push_str(s, "\n\t");
    push_str(s, "date: ");
    let date = n.date.to_iso_string();
    push_str(s, date.as_str());
    push_str(s, "\n\t");
    push_str(s, "content: ");
    push_str(s, n.content.as_str());
    push_str(s, "\n\t");
    assert(s@ =~= old(s)@ + note_block(*n));
}

impl Person {
    /// The person as it is printed: id, name, birthday, then the contact
    /// infos, activities, reminders and notes, one indented block each.
    pub fn to_string(&self) -> (s: String)
        ensures
            s@ == person_text(*self),
    {
        let mut s = String::new();
        push_str(&mut s, "person id: ");
        push_decimal(&mut s, self.id);
        push_str(&mut s, "\nname: ");
        push_str(&mut s, self.name.as_str());
        push_str(&mut s, "\nbirthday: ");
        match &self.birthday {
            Some(b) => {
                let text = b.to_iso_string();
                push_str(&mut s, text.as_str());
            },
            None => {},
        }
        push_str(&mut s, "\ncontact_info: ");
        push_contact_info_lines(&mut s, &self.contact_info);
        push_str(&mut s, "\nactivities: ");
        let ghost before_activities = s@;
        let mut i: usize = 0;
        while i < self.activities.len()
            invariant
                0 <= i <= self.activities@.len(),
                s@ == before_activities + activity_blocks(self.activities@.take(i as int)),
            decreases self.activities@.len() - i,
        {
            push_activity_block(&mut s, &self.activities[i]);
            i = i + 1;
            assert(self.activities@.take(i as int).drop_last() == self.activities@.take(i - 1));
        }
        assert(self.activities@.take(self.activities@.len() as int) == self.activities@);
        push_str(&mut s, "\nreminders: ");
        let ghost before_reminders = s@;
        let mut i: usize = 0;
        while i < self.reminders.len()
            invariant
                0 <= i <= self.reminders@.len(),
                s@ == before_reminders + reminder_blocks(self.reminders@.take(i as int)),
            decreases self.reminders@.len() - i,
        {
            push_reminder_block(&mut s, &self.reminders[i]);
            i = i + 1;
            assert(self.reminders@.take(i as int).drop_last() == self.reminders@.take(i - 1));
        }
        assert(self.reminders@.take(self.reminders@.len() as int) == self.reminders@);
        push_str(&mut s, "\nnotes: ");
        let ghost before_notes = s@;
        let mut i: usize = 0;
        while i < self.notes.len()
            invariant
                0 <= i <= self.notes@.len(),
                s@ == before_notes + note_blocks(self.notes@.take(i as int)),
            decreases self.notes@.len() - i,
        {
            push_note_block(&mut s, &self.notes[i]);
            i = i + 1;
            assert(self.notes@.take(i as int).drop_last() == self.notes@.take(i - 1));
        }
        assert(self.notes@.take(self.notes@.len() as int) == self.notes@);
        push_str(&mut s, "\n");
        s
    }
}

} // verus!
