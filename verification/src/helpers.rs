//! Small rules shared by the commands: placeholders for SQL lists, dates,
//! activity types, contact infos and choosing one entity among several.
use vstd::prelude::*;

use crate::date::{chrono_ymd, date_result_is, parse_md, parse_ymd, year_one, Date, DateParseError};
use crate::entities::activity::ActivityType;
use crate::properties::contact_entries_whole;
use crate::entities::person::{
    known_tags, splits_complete,
    contact_info_entries, contact_kind_from_tag, contact_splits_ok, nested_seqs, new_contact_views,
    contact_views, lemma_contact_splits_ok_prefix, ContactInfo, ContactInfoKind, ContactInfoType,
};
use crate::entities::Entity;
use crate::text::{parse_u64, parse_u64_spec, push_char, push_str, str_eq, string_of, to_chars};
use crate::CliError;

verus! {

/// Why no entity was chosen.
#[derive(Debug)]
pub struct SelectionError {
    pub message: String,
}

/// The entity the user chose by id among several. `choice` is the number the
/// user typed (`None` when it was not a number); 0 cancels. The first entity
/// with the chosen id is the one returned.
pub fn handle_id_selection<T: Entity>(entity_vec: Vec<T>, choice: Option<usize>) -> (r: Result<
    Vec<T>,
    SelectionError,
>)
    requires
        entity_vec@.len() > 0,
    ensures
        choice is None ==> (r matches Err(e) && e.message@ == "Invalid input"@),
        choice == Some(0usize) ==> (r matches Err(e) && e.message@ == "Aborted"@),
        choice matches Some(n) ==> n != 0 ==> match r {
            Ok(v) => v@.len() == 1 && exists|i: int|
                0 <= i < entity_vec@.len() && entity_vec@[i].spec_id() == n as u64 && v@[0]
                    == entity_vec@[i] && forall|j: int|
                    0 <= j < i ==> (#[trigger] entity_vec@[j]).spec_id() != n as u64,
            Err(e) => e.message@ == "Unknown error"@ && forall|j: int|
                0 <= j < entity_vec@.len() ==> (#[trigger] entity_vec@[j]).spec_id() != n as u64,
        },
{
    let n = match choice {
        Some(n) => n,
        None => {
            return Err(SelectionError { message: string_of("Invalid input") });
        },
    };
    if n == 0 {
        return Err(SelectionError { message: string_of("Aborted") });
    }
    let id = n as u64;
    let mut i: usize = 0;
    while i < entity_vec.len()
        invariant
            0 <= i <= entity_vec@.len(),
            id == n as u64,
            choice == Some(n),
            n != 0,
            forall|j: int| 0 <= j < i ==> (#[trigger] entity_vec@[j]).spec_id() != id,
        decreases entity_vec@.len() - i,
    {
        if entity_vec[i].get_id() == id {
            let ghost all = entity_vec@;
            let mut entity_vec = entity_vec;
            let e = entity_vec.remove(i);
            let mut chosen: Vec<T> = Vec::new();
            chosen.push(e);
            assert(chosen@[0] == all[i as int]);
            return Ok(chosen);
        }
        i = i + 1;
    }
    Err(SelectionError { message: string_of("Unknown error") })
}

/// Whether a character is white space: one with the Unicode `White_Space`
/// property, as `char::is_whitespace` documents.
pub open spec fn white_space(c: char) -> bool {
    let n = c as int;
    (0x09 <= n && n <= 0x0D) || n == 0x20 || n == 0x85 || n == 0xA0 || n == 0x1680 || (0x2000 <= n
        && n <= 0x200A) || n == 0x2028 || n == 0x2029 || n == 0x202F || n == 0x205F || n == 0x3000
}

/// The text without its leading and trailing white space.
pub open spec fn trimmed(s: Seq<char>) -> Seq<char>
    decreases s.len(),
{
    if s.len() > 0 && white_space(s[0]) {
        trimmed(s.skip(1))
    } else if s.len() > 0 && white_space(s.last()) {
        trimmed(s.drop_last())
    } else {
        s
    }
}

/// Calls std's `str::trim`.
/// Trusted: the result is the text without its leading and trailing white
/// space, as the documentation of `str::trim` (and of
/// `char::is_whitespace`) says.
#[verifier::external_body]
fn trim_text(s: &str) -> (t: String)
    ensures
        t@ == trimmed(s@),
{
    s.trim().to_string()
}

/// The number a typed answer gives, as `trim` then `parse::<usize>` read it.
pub open spec fn choice_of(answer: Seq<char>) -> Option<usize> {
    match parse_u64_spec(trimmed(answer)) {
        Some(n) => if n <= usize::MAX {
            Some(n as usize)
        } else {
            None
        },
        None => None,
    }
}

/// Reads the id the user typed to choose among several entities: the
/// answer without surrounding white space, as a decimal number; `None`
/// when it is not one.
pub fn read_choice(answer: &str) -> (r: Option<usize>)
    ensures
        r == choice_of(answer@),
{
    let t = trim_text(answer);
    let chars = to_chars(t.as_str());
    match parse_u64(&chars) {
        Some(n) => if n <= usize::MAX as u64 {
            Some(n as usize)
        } else {
            None
        },
        None => None,
    }
}

/// The entity with the id the user typed among several, as the removal
/// commands choose one: the last entity with that id, or `None` when no
/// entity has it.
pub fn pick_by_id<T: Entity>(entities: Vec<T>, n: usize) -> (r: Option<T>)
    ensures
        match r {
            Some(e) => exists|i: int|
                0 <= i < entities@.len() && entities@[i] == e && e.spec_id() == n as u64 && forall|
                    j: int,
                | i < j < entities@.len() ==> (#[trigger] entities@[j]).spec_id() != n as u64,
            None => forall|j: int|
                0 <= j < entities@.len() ==> (#[trigger] entities@[j]).spec_id() != n as u64,
        },
{
    let ghost all = entities@;
    let id = n as u64;
    let mut rest = entities;
    let mut chosen: Option<T> = None;
    let ghost mut at: int = -1;
    let mut i: usize = 0;
    let len = rest.len();
    while rest.len() > 0
        invariant
            len == all.len(),
            0 <= i <= len,
            rest@ == all.skip(i as int),
            id == n as u64,
            -1 <= at < i,
            match chosen {
                Some(e) => 0 <= at && all[at] == e && e.spec_id() == id,
                None => at == -1,
            },
            forall|j: int| at < j < i ==> (#[trigger] all[j]).spec_id() != id,
        decreases rest@.len(),
    {
        let e = rest.remove(0);
        assert(rest@ =~= all.skip(i + 1));
        assert(e == all[i as int]);
        if e.get_id() == id {
            chosen = Some(e);
            proof {
                at = i as int;
            }
        }
        i = i + 1;
    }
    chosen
}

/// The fields of an activity as the user wrote them.
pub struct ActivityVars {
    pub name: String,
    pub date: String,
    pub activity_type: String,
    pub content: String,
    pub people: Vec<String>,
}

/// `"?"` followed by `count - 1` copies of `",?"`.
pub open spec fn spec_repeat_vars(count: nat) -> Seq<char>
    decreases count,
{
    if count <= 1 {
        seq!['?']
    } else {
        spec_repeat_vars((count - 1) as nat) + seq![',', '?']
    }
}

/// A comma-separated sequence of `count` question marks, the placeholders of
/// an SQL list.
pub fn repeat_vars(count: usize) -> (s: String)
    requires
        count != 0,
    ensures
        s@ == spec_repeat_vars(count as nat),
{
    let mut s = String::new();
    push_char(&mut s, '?');
    let mut i: usize = 1;
    while i < count
        invariant
            1 <= i <= count,
            s@ == spec_repeat_vars(i as nat),
        decreases count - i,
    {
        push_char(&mut s, ',');
        push_char(&mut s, '?');
        i = i + 1;
    }
    s
}

/// Parses a `YYYY-MM-DD` date.
pub fn parse_from_str_ymd(date: &str) -> (r: Result<Date, DateParseError>)
    ensures
        date_result_is(r, chrono_ymd(date@)),
{
    parse_ymd(date)
}

/// Parses a `MM-DD` date, as a day of year 1.
pub fn parse_from_str_md(date: &str) -> (r: Result<Date, DateParseError>)
    ensures
        date_result_is(r, chrono_ymd(year_one(date@))),
{
    parse_md(date)
}

/// The date stored as text in a record: what chrono reads from it, or
/// chrono's default date (1970-01-01) when it does not read as a date.
pub fn stored_date(text: &str) -> (d: Date)
    ensures
        chrono_ymd(text@) matches Ok(t) ==> d@ == t,
        chrono_ymd(text@) is Err ==> d@ == (1970int, 1int, 1int),
{
    match parse_ymd(text) {
        Ok(d) => d,
        Err(_) => Date::default(),
    }
}

/// The argument, or the empty string when there is none.
pub fn unwrap_arg_or_empty_string(arg: Option<String>) -> (s: String)
    ensures
        arg matches Some(a) ==> s == a,
        arg is None ==> s@ == Seq::<char>::empty(),
{
    match arg {
        Some(a) => a,
        None => String::new(),
    }
}

/// The activity type that a command-line name stands for.
pub open spec fn activity_type_from_name(name: Seq<char>) -> Option<ActivityType> {
    if name == "phone"@ {
        Some(ActivityType::Phone)
    } else if name == "in_person"@ {
        Some(ActivityType::InPerson)
    } else if name == "online"@ {
        Some(ActivityType::Online)
    } else {
        None
    }
}

/// Reads an activity type given on the command line.
pub fn get_activity_type(activity_type: String) -> (r: Result<ActivityType, CliError>)
    ensures
        activity_type_from_name(activity_type@) matches Some(t) ==> r == Ok::<
            ActivityType,
            CliError,
        >(t),
        activity_type_from_name(activity_type@) is None ==> r == Err::<ActivityType, CliError>(
            CliError::ActivityTypeParse { activity_type },
        ),
{
    if str_eq(activity_type.as_str(), "phone") {
        Ok(ActivityType::Phone)
    } else if str_eq(activity_type.as_str(), "in_person") {
        Ok(ActivityType::InPerson)
    } else if str_eq(activity_type.as_str(), "online") {
        Ok(ActivityType::Online)
    } else {
        Err(CliError::ActivityTypeParse { activity_type })
    }
}

/// The kind a lower-case tag stands for.
pub(crate) fn kind_from_tag(tag: &str) -> (r: Option<ContactInfoKind>)
    ensures
        r == contact_kind_from_tag(tag@),
{
    if str_eq(tag, "phone") {
        Some(ContactInfoKind::Phone)
    } else if str_eq(tag, "whatsapp") {
        Some(ContactInfoKind::WhatsApp)
    } else if str_eq(tag, "email") {
        Some(ContactInfoKind::Email)
    } else {
        None
    }
}

/// Reads `type:value` splits into contact infos of a person, each with id 0.
/// The first split with a type other than `phone`, `whatsapp` or `email`
/// gives an error that quotes it. When every split has a type and a value,
/// reading succeeds exactly when every type is known, and then gives one
/// contact info per split, in order.
pub fn get_contact_info(id: u64, splits: Vec<Vec<String>>) -> (r: Result<Vec<ContactInfo>, CliError>)
    requires
        contact_splits_ok(nested_seqs(splits@)),
    ensures
        match contact_info_entries(nested_seqs(splits@)) {
            Ok(entries) => r matches Ok(v) && contact_views(v@) == new_contact_views(id, entries),
            Err(e) => r matches Err(CliError::ContactInfoParse { contact_info: c }) && c@ == e,
        },
        splits_complete(nested_seqs(splits@)) ==> (r is Ok <==> known_tags(nested_seqs(splits@))),
        splits_complete(nested_seqs(splits@)) ==> (r matches Ok(v) ==> v@.len() == splits@.len()
            && forall|i: int|
            0 <= i < v@.len() ==> (#[trigger] v@[i])@ == (
                0u64,
                id,
                contact_kind_from_tag(nested_seqs(splits@)[i][0])->0,
                nested_seqs(splits@)[i][1],
                nested_seqs(splits@)[i][1],
            )),
        splits_complete(nested_seqs(splits@)) ==> (r matches Err(CliError::ContactInfoParse {
            contact_info: c,
        }) ==> exists|k: int|
            0 <= k < splits@.len() && contact_kind_from_tag(nested_seqs(splits@)[k][0]) is None
                && known_tags(nested_seqs(splits@).take(k)) && c@ == (#[trigger] nested_seqs(
                splits@,
            )[k])[0] + seq![':'] + nested_seqs(splits@)[k][1]),
{
    let mut contact_info_vec: Vec<ContactInfo> = Vec::new();
    let ghost all = nested_seqs(splits@);
    let mut i: usize = 0;
    while i < splits.len()
        invariant
            0 <= i <= splits@.len(),
            all == nested_seqs(splits@),
            contact_splits_ok(all),
            contact_info_entries(all.take(i as int)) matches Ok(entries) && contact_views(
                contact_info_vec@,
            ) == new_contact_views(id, entries),
        decreases splits@.len() - i,
    {
        proof {
            lemma_contact_splits_ok_prefix(all, i + 1);
            assert(all.take(i + 1).drop_last() == all.take(i as int));
        }
        let split = &splits[i];
        assert(split@.len() >= 2);
        let tag = split[0].as_str();
        match kind_from_tag(tag) {
            Some(kind) => {
                let ghost before = contact_views(contact_info_vec@);
                let t = ContactInfoType::of_kind(kind, split[1].clone());
                contact_info_vec.push(ContactInfo::new(0, id, t));
                assert(contact_views(contact_info_vec@) =~= before.push(
                    (0u64, id, kind, split@[1]@, split@[1]@),
                ));
                proof {
                    let prev = contact_info_entries(all.take(i as int))->Ok_0;
                    assert(new_contact_views(id, prev.push((kind, split@[1]@))) =~= new_contact_views(
                        id,
                        prev,
                    ).push((0u64, id, kind, split@[1]@, split@[1]@)));
                }
            },
            None => {
                let mut text = String::new();
                push_str(&mut text, split[0].as_str());
                push_char(&mut text, ':');
                push_str(&mut text, split[1].as_str());
                proof {
                    lemma_entries_error_stays(all, i + 1);
                    if splits_complete(all) {
                        contact_entries_whole(all);
                    }
                }
                return Err(CliError::ContactInfoParse { contact_info: text });
            },
        }
        i = i + 1;
    }
    assert(all.take(splits@.len() as int) == all);
    proof {
        if splits_complete(all) {
            contact_entries_whole(all);
            let e = contact_info_entries(all)->Ok_0;
            assert forall|i: int| 0 <= i < contact_info_vec@.len() implies (
            #[trigger] contact_info_vec@[i])@ == (
                0u64,
                id,
                contact_kind_from_tag(all[i][0])->0,
                all[i][1],
                all[i][1],
            ) by {
                assert(contact_views(contact_info_vec@)[i] == contact_info_vec@[i]@);
                assert(new_contact_views(id, e)[i] == (0u64, id, e[i].0, e[i].1, e[i].1));
            }
        }
    }
    Ok(contact_info_vec)
}

/// Once reading contact info splits has failed, reading more of them fails
/// with the same error.
proof fn lemma_entries_error_stays(all: Seq<Seq<Seq<char>>>, k: int)
    requires
        0 <= k <= all.len(),
        contact_info_entries(all.take(k)) is Err,
    ensures
        contact_info_entries(all) == contact_info_entries(all.take(k)),
    decreases all.len() - k,
{
    if k < all.len() {
        assert(all.take(k + 1).drop_last() == all.take(k));
        lemma_entries_error_stays(all, k + 1);
    } else {
        assert(all.take(k) == all);
    }
}

} // verus!
