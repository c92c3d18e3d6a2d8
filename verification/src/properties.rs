//! What holds of the library as a whole: round trips between what is
//! written and what is read back, and what the filters keep.
use vstd::prelude::*;

use crate::date::{date_before, iso_date_text, iso_year_text, two_digits, valid_ymd, zero_pad};
use crate::db::stale;
use crate::entities::activity::{
    activity_editor_fold, activity_type_from_stored_name, activity_type_name, Activity,
    ActivityType,
};
use crate::entities::note::Note;
use crate::entities::note::note_editor_fold;
use crate::entities::event::{exported_events, with_birthday, Event, EventType};
use crate::entities::person::{
    activity_block, activity_blocks, contact_info_lines, people_lines, note_block, note_blocks, person_text,
    reminder_block, reminder_blocks, Person,
};
use crate::text::{all_digits, decimal, digit_char, digit_value, digits_value, is_digit, parse_ids_spec, parse_u64_spec, unsigned_digits};
use crate::helpers::{trimmed, white_space};
use crate::db::{contact_pair, has_contact_pair, stale_contacts};
use crate::cli::add::{known_contacts, unknown_contacts};
use crate::cli::edit::{activity_vars, contact_info_entry, contact_info_field, note_vars, reminder_vars};
use crate::forms::{activity_form, note_form, reminder_form};
use crate::entities::person::{
    known_tags, people_names, splits_complete, contact_info_entries, contact_kind_from_name, contact_kind_from_tag, contact_kind_name,
    contact_splits, ContactInfo, ContactInfoKind,
};
use crate::entities::reminder::{
    recurring_from_cli_name, recurring_from_stored_name, recurring_name, reminder_editor_fold,
    upcoming, RecurringType, Reminder,
};
use crate::helpers::{activity_type_from_name, spec_repeat_vars};
use crate::text::{ascii_lower, join_with, lines_of, split_chars, starts_with, strip_cr, trim_start_matches};

verus! {

/// A text without the separator is a single piece.
proof fn lemma_split_single(s: Seq<char>, sep: char)
    requires
        !s.contains(sep),
    ensures
        split_chars(s, sep) == seq![s],
    decreases s.len(),
{
    if s.len() > 0 {
        assert(!s.drop_last().contains(sep)) by {
            if s.drop_last().contains(sep) {
                let k = choose|k: int| 0 <= k < s.drop_last().len() && s.drop_last()[k] == sep;
                assert(s[k] == sep);
            }
        }
        lemma_split_single(s.drop_last(), sep);
        assert(s.last() != sep) by {
            assert(s[s.len() - 1] == s.last());
        }
        assert(s.drop_last().push(s.last()) =~= s);
        assert(seq![s.drop_last()].update(0, s.drop_last().push(s.last())) =~= seq![s]);
    } else {
        assert(s =~= Seq::<char>::empty());
    }
}

/// Splitting `a`, the separator and a piece without it gives the pieces of
/// `a` and then that piece.
proof fn lemma_split_append(a: Seq<char>, b: Seq<char>, sep: char)
    requires
        !b.contains(sep),
    ensures
        split_chars(a + seq![sep] + b, sep) == split_chars(a, sep).push(b),
    decreases b.len(),
{
    if b.len() == 0 {
        assert(a + seq![sep] + b =~= a.push(sep));
        assert((a + seq![sep] + b).drop_last() =~= a);
        assert(b =~= Seq::<char>::empty());
    } else {
        let b0 = b.drop_last();
        assert(!b0.contains(sep)) by {
            if b0.contains(sep) {
                let k = choose|k: int| 0 <= k < b0.len() && b0[k] == sep;
                assert(b[k] == sep);
            }
        }
        lemma_split_append(a, b0, sep);
        assert((a + seq![sep] + b).drop_last() =~= a + seq![sep] + b0);
        assert((a + seq![sep] + b).last() == b.last());
        assert(b.last() != sep) by {
            assert(b[b.len() - 1] == b.last());
        }
        assert(b0.push(b.last()) =~= b);
        assert(split_chars(a, sep).push(b0).update(
            split_chars(a, sep).push(b0).len() - 1,
            b0.push(b.last()),
        ) =~= split_chars(a, sep).push(b));
    }
}

/// Joining pieces that hold no separator and splitting the result again
/// gives the same pieces back: a list written comma-separated reads back
/// as the same list.
pub proof fn split_of_join(pieces: Seq<Seq<char>>, sep: char)
    requires
        pieces.len() >= 1,
        forall|i: int| 0 <= i < pieces.len() ==> !(#[trigger] pieces[i]).contains(sep),
    ensures
        split_chars(join_with(pieces, seq![sep]), sep) == pieces,
    decreases pieces.len(),
{
    if pieces.len() == 1 {
        assert(!pieces[0].contains(sep));
        lemma_split_single(pieces[0], sep);
        assert(seq![pieces[0]] =~= pieces);
    } else {
        let init = pieces.drop_last();
        assert forall|i: int| 0 <= i < init.len() implies !(#[trigger] init[i]).contains(sep) by {
            assert(init[i] == pieces[i]);
        }
        split_of_join(init, sep);
        assert(!pieces.last().contains(sep)) by {
            assert(pieces[pieces.len() - 1] == pieces.last());
        }
        lemma_split_append(join_with(init, seq![sep]), pieces.last(), sep);
        assert(init.push(pieces.last()) =~= pieces);
    }
}

/// Joining the pieces of a split with one more character on the last
/// piece gives the joined text with that character.
proof fn lemma_join_extend_last(p: Seq<Seq<char>>, c: char, sep: Seq<char>)
    requires
        p.len() >= 1,
    ensures
        join_with(p.update(p.len() - 1, p.last().push(c)), sep) == join_with(p, sep).push(c),
{
    let q = p.update(p.len() - 1, p.last().push(c));
    if p.len() == 1 {
        assert(q[0] == p[0].push(c));
    } else {
        assert(q.drop_last() =~= p.drop_last());
        assert(q.last() == p.last().push(c));
        assert(join_with(p.drop_last(), sep) + sep + p.last().push(c) =~= (join_with(
            p.drop_last(),
            sep,
        ) + sep + p.last()).push(c));
    }
}

/// Splitting a text at a separator and joining the pieces with it gives the
/// text back.
pub proof fn join_of_split(s: Seq<char>, sep: char)
    ensures
        join_with(split_chars(s, sep), seq![sep]) == s,
    decreases s.len(),
{
    if s.len() > 0 {
        let s0 = s.drop_last();
        join_of_split(s0, sep);
        crate::text::lemma_split_nonempty(s0, sep);
        let prev = split_chars(s0, sep);
        if s.last() == sep {
            let q = prev.push(Seq::<char>::empty());
            assert(q.drop_last() =~= prev);
            assert(join_with(prev, seq![sep]) + seq![sep] + q.last() =~= s);
        } else {
            lemma_join_extend_last(prev, s.last(), seq![sep]);
            assert(s0.push(s.last()) =~= s);
        }
    }
}

/// An id is stale exactly when it is stored and not kept.
pub proof fn stale_exactly_unkept(stored: Seq<u64>, kept: Seq<u64>, x: u64)
    ensures
        stale(stored, kept).contains(x) <==> (stored.contains(x) && !kept.contains(x)),
    decreases stored.len(),
{
    if stored.len() > 0 {
        let init = stored.drop_last();
        stale_exactly_unkept(init, kept, x);
        assert(stored =~= init.push(stored.last()));
        assert(stored.contains(x) <==> (init.contains(x) || stored.last() == x)) by {
            if stored.contains(x) {
                let k = choose|k: int| 0 <= k < stored.len() && stored[k] == x;
                if k < init.len() {
                    assert(init[k] == x);
                }
            }
            if init.contains(x) {
                let k = choose|k: int| 0 <= k < init.len() && init[k] == x;
                assert(stored[k] == x);
            }
            if stored.last() == x {
                assert(stored[stored.len() - 1] == x);
            }
        }
        let prev = stale(init, kept);
        if !kept.contains(stored.last()) {
            assert(prev.push(stored.last()).contains(x) <==> (prev.contains(x) || stored.last()
                == x)) by {
                if prev.push(stored.last()).contains(x) {
                    let k = choose|k: int|
                        0 <= k < prev.push(stored.last()).len() && prev.push(stored.last())[k]
                            == x;
                    if k < prev.len() {
                        assert(prev[k] == x);
                    }
                }
                if prev.contains(x) {
                    let k = choose|k: int| 0 <= k < prev.len() && prev[k] == x;
                    assert(prev.push(stored.last())[k] == x);
                }
                if stored.last() == x {
                    assert(prev.push(stored.last())[prev.len() as int] == x);
                }
            }
        }
    }
}

/// The placeholder list of an SQL query for `count` values splits at its
/// commas into `count` question marks.
pub proof fn placeholders_split(count: nat)
    requires
        count >= 1,
    ensures
        split_chars(spec_repeat_vars(count), ',') == Seq::new(count, |i: int| seq!['?']),
    decreases count,
{
    if count == 1 {
        assert(!seq!['?'].contains(','));
        lemma_split_single(seq!['?'], ',');
        assert(seq![seq!['?']] =~= Seq::new(1, |i: int| seq!['?']));
    } else {
        placeholders_split((count - 1) as nat);
        let a = spec_repeat_vars((count - 1) as nat);
        assert(!seq!['?'].contains(','));
        lemma_split_append(a, seq!['?'], ',');
        assert(a + seq![',', '?'] =~= a + seq![','] + seq!['?']);
        assert(Seq::new((count - 1) as nat, |i: int| seq!['?']).push(seq!['?']) =~= Seq::new(
            count,
            |i: int| seq!['?'],
        ));
    }
}

/// Reading the stored name of an activity type gives the type back.
pub proof fn activity_type_stored_name_roundtrip(t: ActivityType)
    ensures
        activity_type_from_stored_name(activity_type_name(t)) == Some(t),
{
    reveal_strlit("Phone");
    reveal_strlit("InPerson");
    reveal_strlit("Online");
    assert("Phone"@[0] == 'P' && "InPerson"@[0] == 'I' && "Online"@[0] == 'O');
}

/// Reading the stored name of a recurrence gives the recurrence back.
pub proof fn recurring_stored_name_roundtrip(t: RecurringType)
    ensures
        recurring_from_stored_name(recurring_name(t)) == Some(t),
{
    reveal_strlit("OneTime");
    reveal_strlit("Daily");
    reveal_strlit("Weekly");
    reveal_strlit("Fortnightly");
    reveal_strlit("Monthly");
    reveal_strlit("Quarterly");
    reveal_strlit("Biannual");
    reveal_strlit("Yearly");
    assert("OneTime"@[0] == 'O' && "Daily"@[0] == 'D' && "Weekly"@[0] == 'W' && "Fortnightly"@[0] == 'F' && "Monthly"@[0] == 'M' && "Quarterly"@[0] == 'Q' && "Biannual"@[0] == 'B' && "Yearly"@[0] == 'Y');
}

/// Reading the stored name of a kind of contact info gives the kind back.
pub proof fn contact_kind_stored_name_roundtrip(k: ContactInfoKind)
    ensures
        contact_kind_from_name(contact_kind_name(k)) == Some(k),
{
    reveal_strlit("Phone");
    reveal_strlit("WhatsApp");
    reveal_strlit("Email");
    assert("Phone"@[0] == 'P' && "WhatsApp"@[0] == 'W' && "Email"@[0] == 'E');
}

/// The recurrence that the editor shows, in lower case, reads back as the
/// same recurrence when the edited reminder is applied.
pub proof fn recurring_editor_roundtrip(t: RecurringType)
    ensures
        recurring_from_cli_name(ascii_lower(recurring_name(t))) == Some(t),
{
    reveal_strlit("OneTime");
    reveal_strlit("Daily");
    reveal_strlit("Weekly");
    reveal_strlit("Fortnightly");
    reveal_strlit("Monthly");
    reveal_strlit("Quarterly");
    reveal_strlit("Biannual");
    reveal_strlit("Yearly");
    reveal_strlit("onetime");
    reveal_strlit("daily");
    reveal_strlit("weekly");
    reveal_strlit("fortnightly");
    reveal_strlit("monthly");
    reveal_strlit("quarterly");
    reveal_strlit("biannual");
    reveal_strlit("yearly");
    assert("onetime"@[0] == 'o' && "daily"@[0] == 'd' && "weekly"@[0] == 'w' && "fortnightly"@[0] == 'f' && "monthly"@[0] == 'm' && "quarterly"@[0] == 'q' && "biannual"@[0] == 'b' && "yearly"@[0] == 'y');
    match t {
        RecurringType::OneTime => assert(ascii_lower("OneTime"@) =~= "onetime"@),
        RecurringType::Daily => assert(ascii_lower("Daily"@) =~= "daily"@),
        RecurringType::Weekly => assert(ascii_lower("Weekly"@) =~= "weekly"@),
        RecurringType::Fortnightly => assert(ascii_lower("Fortnightly"@) =~= "fortnightly"@),
        RecurringType::Monthly => assert(ascii_lower("Monthly"@) =~= "monthly"@),
        RecurringType::Quarterly => assert(ascii_lower("Quarterly"@) =~= "quarterly"@),
        RecurringType::Biannual => assert(ascii_lower("Biannual"@) =~= "biannual"@),
        RecurringType::Yearly => assert(ascii_lower("Yearly"@) =~= "yearly"@),
    }
}

/// The activity type that the editor shows, in lower case, reads back as
/// the same type when the edited activity is applied, for every type but
/// `InPerson` (shown as `inperson`, while the name read is `in_person`).
pub proof fn activity_type_editor_roundtrip(t: ActivityType)
    requires
        t != ActivityType::InPerson,
    ensures
        activity_type_from_name(ascii_lower(activity_type_name(t))) == Some(t),
{
    reveal_strlit("Phone");
    reveal_strlit("Online");
    reveal_strlit("phone");
    reveal_strlit("in_person");
    reveal_strlit("online");
    assert("phone"@[0] == 'p' && "in_person"@[0] == 'i' && "online"@[0] == 'o');
    match t {
        ActivityType::Phone => assert(ascii_lower("Phone"@) =~= "phone"@),
        ActivityType::Online => assert(ascii_lower("Online"@) =~= "online"@),
        ActivityType::InPerson => {},
    }
}

/// The type of a contact info that the editor shows, in lower case, reads
/// back as the same kind.
pub proof fn contact_kind_editor_roundtrip(k: ContactInfoKind)
    ensures
        contact_kind_from_tag(ascii_lower(contact_kind_name(k))) == Some(k),
{
    reveal_strlit("Phone");
    reveal_strlit("WhatsApp");
    reveal_strlit("Email");
    reveal_strlit("phone");
    reveal_strlit("whatsapp");
    reveal_strlit("email");
    assert("phone"@[0] == 'p' && "whatsapp"@[0] == 'w' && "email"@[0] == 'e');
    match k {
        ContactInfoKind::Phone => assert(ascii_lower("Phone"@) =~= "phone"@),
        ContactInfoKind::WhatsApp => assert(ascii_lower("WhatsApp"@) =~= "whatsapp"@),
        ContactInfoKind::Email => assert(ascii_lower("Email"@) =~= "email"@),
    }
}

/// Exporting all events keeps every event, in order.
pub proof fn export_all_keeps_every_event(events: Seq<Event>, birthdays: bool, reminders: bool)
    ensures
        exported_events(events, birthdays, reminders, true) == events,
    decreases events.len(),
{
    if events.len() > 0 {
        export_all_keeps_every_event(events.drop_last(), birthdays, reminders);
        assert(events.drop_last().push(events.last()) =~= events);
    } else {
        assert(events =~= Seq::<Event>::empty());
    }
}

/// Listing reminders with past ones keeps them all, in order.
pub proof fn upcoming_with_past_keeps_all(rs: Seq<Reminder>, today: (int, int, int))
    ensures
        upcoming(rs, true, today) == rs,
    decreases rs.len(),
{
    if rs.len() > 0 {
        upcoming_with_past_keeps_all(rs.drop_last(), today);
        assert(rs.drop_last().push(rs.last()) =~= rs);
    } else {
        assert(rs =~= Seq::<Reminder>::empty());
    }
}

/// Listing reminders without past ones keeps only those after today.
pub proof fn upcoming_are_after_today(rs: Seq<Reminder>, today: (int, int, int))
    ensures
        forall|i: int|
            0 <= i < upcoming(rs, false, today).len() ==> date_before(
                today,
                (#[trigger] upcoming(rs, false, today)[i]).date@,
            ),
    decreases rs.len(),
{
    if rs.len() > 0 {
        upcoming_are_after_today(rs.drop_last(), today);
    }
}

/// The kind and details of each contact info, in order.
pub open spec fn kinds_and_details(cs: Seq<ContactInfo>) -> Seq<(ContactInfoKind, Seq<char>)> {
    cs.map_values(|c: ContactInfo| (c.contact_info_type.kind(), c.details@))
}

/// The lower-case type that the editor shows for a contact info.
pub open spec fn shown_tag(c: ContactInfo) -> Seq<char> {
    ascii_lower(contact_kind_name(c.contact_info_type.kind()))
}

/// The tag the editor shows holds neither a comma nor a colon.
proof fn lemma_tag_plain(k: ContactInfoKind)
    ensures
        !ascii_lower(contact_kind_name(k)).contains(','),
        !ascii_lower(contact_kind_name(k)).contains(':'),
{
    contact_kind_editor_roundtrip(k);
    reveal_strlit("phone");
    reveal_strlit("whatsapp");
    reveal_strlit("email");
    let t = ascii_lower(contact_kind_name(k));
    assert forall|i: int| 0 <= i < t.len() implies t[i] != ',' && t[i] != ':' by {
        match k {
            ContactInfoKind::Phone => assert(t =~= "phone"@),
            ContactInfoKind::WhatsApp => assert(t =~= "whatsapp"@),
            ContactInfoKind::Email => assert(t =~= "email"@),
        }
    }
}

/// Reading `tag:details` splits made from contact infos gives their kinds
/// and details.
proof fn lemma_entries_of_tagged(cs: Seq<ContactInfo>)
    ensures
        contact_info_entries(cs.map_values(|c: ContactInfo| seq![shown_tag(c), c.details@]))
            == Ok::<Seq<(ContactInfoKind, Seq<char>)>, Seq<char>>(kinds_and_details(cs)),
    decreases cs.len(),
{
    let f = |c: ContactInfo| seq![shown_tag(c), c.details@];
    let splits = cs.map_values(f);
    if cs.len() > 0 {
        let init = cs.drop_last();
        lemma_entries_of_tagged(init);
        assert(splits.drop_last() =~= init.map_values(f));
        let c = cs.last();
        assert(splits.last() == f(c)) by {
            assert(splits[splits.len() - 1] == f(cs[cs.len() - 1]));
        }
        contact_kind_editor_roundtrip(c.contact_info_type.kind());
        assert(kinds_and_details(init).push((c.contact_info_type.kind(), c.details@))
            =~= kinds_and_details(cs));
    } else {
        assert(splits =~= Seq::<Seq<Seq<char>>>::empty());
        assert(kinds_and_details(cs) =~= Seq::<(ContactInfoKind, Seq<char>)>::empty());
    }
}

/// The contact infos that the editor shows for a person read back, when the
/// edited person is applied unchanged, as the same kinds and details in the
/// same order. This holds when the person has contact infos and no detail
/// holds a comma or a colon.
#[verifier::rlimit(40)]
pub proof fn contact_field_roundtrip(cs: Seq<ContactInfo>)
    requires
        cs.len() >= 1,
        forall|i: int|
            0 <= i < cs.len() ==> !(#[trigger] cs[i]).details@.contains(',') && !cs[i].details@.contains(
                ':',
            ),
    ensures
        contact_info_entries(contact_splits(contact_info_field(cs))) == Ok::<
            Seq<(ContactInfoKind, Seq<char>)>,
            Seq<char>,
        >(kinds_and_details(cs)),
{
    reveal_strlit(",");
    reveal_strlit(":");
    let pieces = cs.map_values(|c: ContactInfo| contact_info_entry(c));
    assert forall|i: int| 0 <= i < pieces.len() implies !(#[trigger] pieces[i]).contains(',') by {
        let c = cs[i];
        lemma_tag_plain(c.contact_info_type.kind());
        assert(pieces[i] == shown_tag(c) + seq![':'] + c.details@);
        if pieces[i].contains(',') {
            let k = choose|k: int| 0 <= k < pieces[i].len() && pieces[i][k] == ',';
            if k < shown_tag(c).len() {
                assert(shown_tag(c)[k] == ',');
            } else if k > shown_tag(c).len() {
                assert(c.details@[k - shown_tag(c).len() - 1] == ',');
            }
        }
    }
    split_of_join(pieces, ',');
    assert(","@ == seq![',']);
    let splits = contact_splits(contact_info_field(cs));
    assert(splits =~= cs.map_values(|c: ContactInfo| seq![shown_tag(c), c.details@])) by {
        assert(split_chars(contact_info_field(cs), ',') == pieces);
        assert forall|i: int| 0 <= i < cs.len() implies splits[i] == seq![
            shown_tag(cs[i]),
            cs[i].details@,
        ] by {
            let c = cs[i];
            lemma_tag_plain(c.contact_info_type.kind());
            lemma_split_single(shown_tag(c), ':');
            assert(!c.details@.contains(':'));
            lemma_split_append(shown_tag(c), c.details@, ':');
            assert(pieces[i] == shown_tag(c) + seq![':'] + c.details@);
            assert(seq![shown_tag(c)].push(c.details@) =~= seq![shown_tag(c), c.details@]);
        }
    }
    lemma_entries_of_tagged(cs);
}

/// A value that stays on its line: no line break, and no carriage return at
/// its end (which reading lines would drop).
pub open spec fn one_line(v: Seq<char>) -> bool {
    !v.contains('\n') && !(v.len() > 0 && v.last() == '\r')
}

/// Two texts without a character have none together.
proof fn lemma_concat_lacks(a: Seq<char>, b: Seq<char>, c: char)
    requires
        !a.contains(c),
        !b.contains(c),
    ensures
        !(a + b).contains(c),
{
    if (a + b).contains(c) {
        let k = choose|k: int| 0 <= k < (a + b).len() && (a + b)[k] == c;
        if k < a.len() {
            assert(a[k] == c);
        } else {
            assert(b[k - a.len()] == c);
        }
    }
}

/// A line made of a label and a value starts with the label, and trimming
/// the label leaves the value when the value does not start with it too.
proof fn lemma_trim_label(label: Seq<char>, v: Seq<char>)
    requires
        label.len() > 0,
        !starts_with(v, label),
    ensures
        starts_with(label + v, label),
        trim_start_matches(label + v, label) == v,
{
    assert((label + v).take(label.len() as int) =~= label);
    assert((label + v).skip(label.len() as int) =~= v);
    reveal_with_fuel(trim_start_matches, 2);
}

/// A line made of one label and a value does not start with a label that
/// differs from it at some place.
proof fn lemma_other_label(label: Seq<char>, v: Seq<char>, other: Seq<char>, k: int)
    requires
        0 <= k < label.len(),
        k < other.len(),
        label[k] != other[k],
    ensures
        !starts_with(label + v, other),
{
    if starts_with(label + v, other) {
        assert((label + v).take(other.len() as int)[k] == other[k]);
        assert((label + v)[k] == label[k]);
    }
}

/// Lines, each followed by a line break.
pub open spec fn line_block(lines: Seq<Seq<char>>) -> Seq<char>
    decreases lines.len(),
{
    if lines.len() == 0 {
        Seq::empty()
    } else {
        line_block(lines.drop_last()) + lines.last() + seq!['\n']
    }
}

/// Splitting lines followed by a last piece at the line breaks gives the
/// lines and that piece.
proof fn lemma_split_block(lines: Seq<Seq<char>>, tail: Seq<char>)
    requires
        forall|i: int| 0 <= i < lines.len() ==> !(#[trigger] lines[i]).contains('\n'),
        !tail.contains('\n'),
    ensures
        split_chars(line_block(lines) + tail, '\n') == lines.push(tail),
    decreases lines.len(),
{
    if lines.len() == 0 {
        lemma_split_single(tail, '\n');
        assert(line_block(lines) + tail =~= tail);
        assert(lines.push(tail) =~= seq![tail]);
    } else {
        let init = lines.drop_last();
        assert forall|i: int| 0 <= i < init.len() implies !(#[trigger] init[i]).contains('\n') by {
            assert(init[i] == lines[i]);
        }
        assert(!lines.last().contains('\n')) by {
            assert(lines[lines.len() - 1] == lines.last());
        }
        lemma_split_block(init, lines.last());
        lemma_split_append(line_block(init) + lines.last(), tail, '\n');
        assert(line_block(lines) + tail =~= (line_block(init) + lines.last()) + seq!['\n'] + tail);
        assert(init.push(lines.last()) =~= lines);
    }
}

/// Reading the lines of a block of lines gives them back when none holds a
/// line break or ends with a carriage return.
pub proof fn lines_of_block(lines: Seq<Seq<char>>)
    requires
        forall|i: int| 0 <= i < lines.len() ==> one_line(#[trigger] lines[i]),
    ensures
        lines_of(line_block(lines)) == lines,
{
    assert forall|i: int| 0 <= i < lines.len() implies !(#[trigger] lines[i]).contains('\n') by {
        assert(one_line(lines[i]));
    }
    assert(!Seq::<char>::empty().contains('\n'));
    lemma_split_block(lines, Seq::<char>::empty());
    assert(line_block(lines) + Seq::<char>::empty() =~= line_block(lines));
    let parts = lines.push(Seq::<char>::empty());
    assert(parts.take(parts.len() - 1) =~= lines);
    assert forall|i: int| 0 <= i < lines.len() implies strip_cr(#[trigger] lines[i]) == lines[i] by {
        assert(one_line(lines[i]));
    }
    assert(parts.take(parts.len() - 1).map_values(|p: Seq<char>| strip_cr(p)) =~= lines);
}

/// A label without line breaks or a final carriage return, followed by a
/// value on one line, is one line.
proof fn lemma_label_line(label: Seq<char>, v: Seq<char>)
    requires
        label.len() > 0,
        !label.contains('\n'),
        label.last() != '\r',
        one_line(v),
    ensures
        one_line(label + v),
{
    lemma_concat_lacks(label, v, '\n');
    if v.len() > 0 {
        assert((label + v).last() == v.last());
    } else {
        assert(label + v =~= label);
    }
}

/// The form of a reminder is the block of its labelled lines.
#[verifier::rlimit(40)]
proof fn lemma_reminder_lines(
    name: Seq<char>,
    date: Seq<char>,
    recurring: Seq<char>,
    description: Seq<char>,
    people: Seq<char>,
)
    requires
        one_line(name),
        one_line(date),
        one_line(recurring),
        one_line(description),
        one_line(people),
    ensures
        lines_of(reminder_form(name, date, recurring, description, people)) == seq![
            "Name: "@ + name,
            "Date: "@ + date,
            "Recurring: "@ + recurring,
            "Description: "@ + description,
            "People: "@ + people,
        ],
{
    reveal_strlit("Name: ");
    reveal_strlit("Date: ");
    reveal_strlit("Recurring: ");
    reveal_strlit("Description: ");
    reveal_strlit("People: ");
    reveal_strlit("\nDate: ");
    reveal_strlit("\nRecurring: ");
    reveal_strlit("\nDescription: ");
    reveal_strlit("\nPeople: ");
    reveal_strlit("\n");
    let lines = seq![
        "Name: "@ + name,
        "Date: "@ + date,
        "Recurring: "@ + recurring,
        "Description: "@ + description,
        "People: "@ + people,
    ];
    lemma_label_line("Name: "@, name);
    lemma_label_line("Date: "@, date);
    lemma_label_line("Recurring: "@, recurring);
    lemma_label_line("Description: "@, description);
    lemma_label_line("People: "@, people);
    assert forall|i: int| 0 <= i < lines.len() implies one_line(#[trigger] lines[i]) by {}
    reveal_with_fuel(line_block, 6);
    assert(reminder_form(name, date, recurring, description, people) =~= line_block(lines));
    lines_of_block(lines);
}

/// Reading the labelled lines of a reminder gives back the values.
#[verifier::rlimit(40)]
proof fn lemma_reminder_fold(
    name: Seq<char>,
    date: Seq<char>,
    recurring: Seq<char>,
    description: Seq<char>,
    people: Seq<char>,
)
    requires
        !starts_with(name, "Name: "@),
        !starts_with(date, "Date: "@),
        !starts_with(recurring, "Recurring: "@),
        !starts_with(description, "Description: "@),
        !starts_with(people, "People: "@),
    ensures
        ({
            let st = reminder_editor_fold(
                seq![
                    "Name: "@ + name,
                    "Date: "@ + date,
                    "Recurring: "@ + recurring,
                    "Description: "@ + description,
                    "People: "@ + people,
                ],
            );
            &&& !st.error
            &&& st.name == name
            &&& st.date == Some(date)
            &&& st.recurring_type == Some(recurring)
            &&& st.description == Some(description)
            &&& st.people == split_chars(people, ',')
        }),
{
    reveal_strlit("Name: ");
    reveal_strlit("Date: ");
    reveal_strlit("Recurring: ");
    reveal_strlit("Description: ");
    reveal_strlit("People: ");
    let l1 = "Name: "@ + name;
    let l2 = "Date: "@ + date;
    let l3 = "Recurring: "@ + recurring;
    let l4 = "Description: "@ + description;
    let l5 = "People: "@ + people;
    lemma_trim_label("Name: "@, name);
    lemma_trim_label("Date: "@, date);
    lemma_trim_label("Recurring: "@, recurring);
    lemma_trim_label("Description: "@, description);
    lemma_trim_label("People: "@, people);
    lemma_other_label("Date: "@, date, "Name: "@, 0);
    lemma_other_label("Recurring: "@, recurring, "Name: "@, 0);
    lemma_other_label("Recurring: "@, recurring, "Date: "@, 0);
    lemma_other_label("Description: "@, description, "Name: "@, 0);
    lemma_other_label("Description: "@, description, "Date: "@, 1);
    lemma_other_label("Description: "@, description, "Recurring: "@, 0);
    lemma_other_label("People: "@, people, "Name: "@, 0);
    lemma_other_label("People: "@, people, "Date: "@, 0);
    lemma_other_label("People: "@, people, "Recurring: "@, 0);
    lemma_other_label("People: "@, people, "Description: "@, 0);
    let lines = seq![l1, l2, l3, l4, l5];
    reveal_with_fuel(reminder_editor_fold, 6);
    assert(lines.drop_last() =~= seq![l1, l2, l3, l4]);
    assert(lines.drop_last().drop_last() =~= seq![l1, l2, l3]);
    assert(lines.drop_last().drop_last().drop_last() =~= seq![l1, l2]);
    assert(lines.drop_last().drop_last().drop_last().drop_last() =~= seq![l1]);
    assert(seq![l1].drop_last() =~= Seq::<Seq<char>>::empty());
}

/// The text the editor shows for a reminder, handed back unchanged, reads
/// as the values it shows: the name, the date, the recurrence and the
/// description, and the people's names split at the commas. This holds when
/// each value stays on its line and none starts with its own label.
#[verifier::rlimit(40)]
pub proof fn reminder_form_reads_back(
    name: Seq<char>,
    date: Seq<char>,
    recurring: Seq<char>,
    description: Seq<char>,
    people: Seq<char>,
)
    requires
        one_line(name),
        one_line(date),
        one_line(recurring),
        one_line(description),
        one_line(people),
        !starts_with(name, "Name: "@),
        !starts_with(date, "Date: "@),
        !starts_with(recurring, "Recurring: "@),
        !starts_with(description, "Description: "@),
        !starts_with(people, "People: "@),
    ensures
        ({
            let st = reminder_editor_fold(
                lines_of(reminder_form(name, date, recurring, description, people)),
            );
            &&& !st.error
            &&& st.name == name
            &&& st.date == Some(date)
            &&& st.recurring_type == Some(recurring)
            &&& st.description == Some(description)
            &&& st.people == split_chars(people, ',')
        }),
{
    lemma_reminder_lines(name, date, recurring, description, people);
    lemma_reminder_fold(name, date, recurring, description, people);
}

/// The form of an activity is the block of its labelled lines.
#[verifier::rlimit(40)]
proof fn lemma_activity_lines(
    name: Seq<char>,
    date: Seq<char>,
    activity_type: Seq<char>,
    content: Seq<char>,
    people: Seq<char>,
)
    requires
        one_line(name),
        one_line(date),
        one_line(activity_type),
        one_line(content),
        one_line(people),
    ensures
        lines_of(activity_form(name, date, activity_type, content, people)) == seq![
            "Name: "@ + name,
            "Date: "@ + date,
            "Activity Type: "@ + activity_type,
            "Content: "@ + content,
            "People: "@ + people,
        ],
{
    reveal_strlit("Name: ");
    reveal_strlit("Date: ");
    reveal_strlit("Activity Type: ");
    reveal_strlit("Content: ");
    reveal_strlit("People: ");
    reveal_strlit("\nDate: ");
    reveal_strlit("\nActivity Type: ");
    reveal_strlit("\nContent: ");
    reveal_strlit("\nPeople: ");
    reveal_strlit("\n");
    let lines = seq![
        "Name: "@ + name,
        "Date: "@ + date,
        "Activity Type: "@ + activity_type,
        "Content: "@ + content,
        "People: "@ + people,
    ];
    lemma_label_line("Name: "@, name);
    lemma_label_line("Date: "@, date);
    lemma_label_line("Activity Type: "@, activity_type);
    lemma_label_line("Content: "@, content);
    lemma_label_line("People: "@, people);
    assert forall|i: int| 0 <= i < lines.len() implies one_line(#[trigger] lines[i]) by {}
    reveal_with_fuel(line_block, 6);
    assert(activity_form(name, date, activity_type, content, people) =~= line_block(lines));
    lines_of_block(lines);
}

/// Reading the labelled lines of an activity gives back the values.
#[verifier::rlimit(40)]
proof fn lemma_activity_fold(
    name: Seq<char>,
    date: Seq<char>,
    activity_type: Seq<char>,
    content: Seq<char>,
    people: Seq<char>,
)
    requires
        !starts_with(name, "Name: "@),
        !starts_with(date, "Date: "@),
        !starts_with(activity_type, "Activity Type: "@),
        !starts_with(content, "Content: "@),
        !starts_with(people, "People: "@),
    ensures
        ({
            let st = activity_editor_fold(
                seq![
                    "Name: "@ + name,
                    "Date: "@ + date,
                    "Activity Type: "@ + activity_type,
                    "Content: "@ + content,
                    "People: "@ + people,
                ],
            );
            &&& !st.error
            &&& st.name == name
            &&& st.date == Some(date)
            &&& st.activity_type == Some(activity_type)
            &&& st.content == Some(content)
            &&& st.people == split_chars(people, ',')
        }),
{
    reveal_strlit("Name: ");
    reveal_strlit("Date: ");
    reveal_strlit("Activity Type: ");
    reveal_strlit("Content: ");
    reveal_strlit("People: ");
    let l1 = "Name: "@ + name;
    let l2 = "Date: "@ + date;
    let l3 = "Activity Type: "@ + activity_type;
    let l4 = "Content: "@ + content;
    let l5 = "People: "@ + people;
    lemma_trim_label("Name: "@, name);
    lemma_trim_label("Date: "@, date);
    lemma_trim_label("Activity Type: "@, activity_type);
    lemma_trim_label("Content: "@, content);
    lemma_trim_label("People: "@, people);
    lemma_other_label("Date: "@, date, "Name: "@, 0);
    lemma_other_label("Activity Type: "@, activity_type, "Name: "@, 0);
    lemma_other_label("Activity Type: "@, activity_type, "Date: "@, 0);
    lemma_other_label("Content: "@, content, "Name: "@, 0);
    lemma_other_label("Content: "@, content, "Date: "@, 0);
    lemma_other_label("Content: "@, content, "Activity Type: "@, 0);
    lemma_other_label("People: "@, people, "Name: "@, 0);
    lemma_other_label("People: "@, people, "Date: "@, 0);
    lemma_other_label("People: "@, people, "Activity Type: "@, 0);
    lemma_other_label("People: "@, people, "Content: "@, 0);
    let lines = seq![l1, l2, l3, l4, l5];
    reveal_with_fuel(activity_editor_fold, 6);
    assert(lines.drop_last() =~= seq![l1, l2, l3, l4]);
    assert(lines.drop_last().drop_last() =~= seq![l1, l2, l3]);
    assert(lines.drop_last().drop_last().drop_last() =~= seq![l1, l2]);
    assert(lines.drop_last().drop_last().drop_last().drop_last() =~= seq![l1]);
    assert(seq![l1].drop_last() =~= Seq::<Seq<char>>::empty());
}

/// The text the editor shows for an activity, handed back unchanged, reads
/// as the values it shows: the name, the date, the type and the content,
/// and the people's names split at the commas. This holds when each value
/// stays on its line and none starts with its own label.
#[verifier::rlimit(40)]
pub proof fn activity_form_reads_back(
    name: Seq<char>,
    date: Seq<char>,
    activity_type: Seq<char>,
    content: Seq<char>,
    people: Seq<char>,
)
    requires
        one_line(name),
        one_line(date),
        one_line(activity_type),
        one_line(content),
        one_line(people),
        !starts_with(name, "Name: "@),
        !starts_with(date, "Date: "@),
        !starts_with(activity_type, "Activity Type: "@),
        !starts_with(content, "Content: "@),
        !starts_with(people, "People: "@),
    ensures
        ({
            let st = activity_editor_fold(
                lines_of(activity_form(name, date, activity_type, content, people)),
            );
            &&& !st.error
            &&& st.name == name
            &&& st.date == Some(date)
            &&& st.activity_type == Some(activity_type)
            &&& st.content == Some(content)
            &&& st.people == split_chars(people, ',')
        }),
{
    lemma_activity_lines(name, date, activity_type, content, people);
    lemma_activity_fold(name, date, activity_type, content, people);
}

/// The text the editor shows for a note, handed back unchanged, reads as
/// the values it shows: the date and the content, and the people's names
/// split at the commas. This holds when each value stays on its line and
/// none starts with its own label.
#[verifier::rlimit(40)]
pub proof fn note_form_reads_back(date: Seq<char>, content: Seq<char>, people: Seq<char>)
    requires
        one_line(date),
        one_line(content),
        one_line(people),
        !starts_with(date, "Date: "@),
        !starts_with(content, "Content: "@),
        !starts_with(people, "People: "@),
    ensures
        ({
            let st = note_editor_fold(lines_of(note_form(date, content, people)));
            &&& !st.error
            &&& st.date == date
            &&& st.content == content
            &&& st.people == split_chars(people, ',')
        }),
{
    reveal_strlit("Date: ");
    reveal_strlit("Content: ");
    reveal_strlit("People: ");
    reveal_strlit("\nContent: ");
    reveal_strlit("\nPeople: ");
    reveal_strlit("\n");
    let l1 = "Date: "@ + date;
    let l2 = "Content: "@ + content;
    let l3 = "People: "@ + people;
    let lines = seq![l1, l2, l3];
    lemma_label_line("Date: "@, date);
    lemma_label_line("Content: "@, content);
    lemma_label_line("People: "@, people);
    assert forall|i: int| 0 <= i < lines.len() implies one_line(#[trigger] lines[i]) by {}
    reveal_with_fuel(line_block, 4);
    assert(note_form(date, content, people) =~= line_block(lines));
    lines_of_block(lines);
    lemma_trim_label("Date: "@, date);
    lemma_trim_label("Content: "@, content);
    lemma_trim_label("People: "@, people);
    lemma_other_label("Content: "@, content, "Date: "@, 0);
    lemma_other_label("People: "@, people, "Date: "@, 0);
    lemma_other_label("People: "@, people, "Content: "@, 0);
    reveal_with_fuel(note_editor_fold, 4);
    assert(lines.drop_last() =~= seq![l1, l2]);
    assert(lines.drop_last().drop_last() =~= seq![l1]);
    assert(seq![l1].drop_last() =~= Seq::<Seq<char>>::empty());
}

/// A character of a printed date: a digit, a minus or a plus sign.
pub open spec fn date_char(c: char) -> bool {
    c == '-' || c == '+' || (48 <= c as int && c as int <= 57)
}

/// The decimal digits of a number are digits.
proof fn lemma_decimal_chars(n: nat)
    ensures
        forall|i: int| 0 <= i < crate::text::decimal(n).len() ==> date_char(
            #[trigger] crate::text::decimal(n)[i],
        ),
    decreases n,
{
    if n >= 10 {
        lemma_decimal_chars(n / 10);
        let d = crate::text::decimal(n);
        let prev = crate::text::decimal(n / 10);
        assert forall|i: int| 0 <= i < d.len() implies date_char(#[trigger] d[i]) by {
            if i < prev.len() {
                assert(d[i] == prev[i]);
            }
        }
    }
}

/// Padding digits with zeros gives digits.
proof fn lemma_zero_pad_chars(s: Seq<char>, width: nat)
    requires
        forall|i: int| 0 <= i < s.len() ==> date_char(#[trigger] s[i]),
    ensures
        forall|i: int| 0 <= i < zero_pad(s, width).len() ==> date_char(#[trigger] zero_pad(s, width)[i]),
    decreases width,
{
    if s.len() < width {
        lemma_zero_pad_chars(s, (width - 1) as nat);
        let z = zero_pad(s, width);
        let prev = zero_pad(s, (width - 1) as nat);
        assert forall|i: int| 0 <= i < z.len() implies date_char(#[trigger] z[i]) by {
            if i > 0 {
                assert(z[i] == prev[i - 1]);
            }
        }
    }
}

/// A printed date is made of digits and signs.
proof fn lemma_date_text_chars(y: int, m: int, d: int)
    requires
        valid_ymd(y, m, d),
    ensures
        iso_date_text(y, m, d).len() > 0,
        forall|i: int| 0 <= i < iso_date_text(y, m, d).len() ==> date_char(
            #[trigger] iso_date_text(y, m, d)[i],
        ),
{
    let yt = iso_year_text(y);
    if 0 <= y <= 9999 {
        assert forall|i: int| 0 <= i < yt.len() implies date_char(#[trigger] yt[i]) by {}
    } else if y < 0 {
        lemma_decimal_chars((-y) as nat);
        lemma_zero_pad_chars(crate::text::decimal((-y) as nat), 4);
        let z = zero_pad(crate::text::decimal((-y) as nat), 4);
        assert forall|i: int| 0 <= i < yt.len() implies date_char(#[trigger] yt[i]) by {
            if i > 0 {
                assert(yt[i] == z[i - 1]);
            }
        }
    } else {
        lemma_decimal_chars(y as nat);
        lemma_zero_pad_chars(crate::text::decimal(y as nat), 4);
        let z = zero_pad(crate::text::decimal(y as nat), 4);
        assert forall|i: int| 0 <= i < yt.len() implies date_char(#[trigger] yt[i]) by {
            if i > 0 {
                assert(yt[i] == z[i - 1]);
            }
        }
    }
    let t = iso_date_text(y, m, d);
    let mt = two_digits(m);
    let dt = two_digits(d);
    assert(t =~= yt + seq!['-'] + mt + seq!['-'] + dt);
    assert forall|i: int| 0 <= i < t.len() implies date_char(#[trigger] t[i]) by {
        if i < yt.len() {
            assert(t[i] == yt[i]);
        } else if i == yt.len() {
        } else if i < yt.len() + 3 {
            assert(t[i] == mt[i - yt.len() - 1]);
        } else if i == yt.len() + 3 {
        } else {
            assert(t[i] == dt[i - yt.len() - 4]);
        }
    }
}

/// A printed date stays on its line and does not start with the date label.
pub proof fn printed_date_is_plain(y: int, m: int, d: int)
    requires
        valid_ymd(y, m, d),
    ensures
        one_line(iso_date_text(y, m, d)),
        !starts_with(iso_date_text(y, m, d), "Date: "@),
{
    lemma_date_text_chars(y, m, d);
    let t = iso_date_text(y, m, d);
    assert(!t.contains('\n')) by {
        if t.contains('\n') {
            let k = choose|k: int| 0 <= k < t.len() && t[k] == '\n';
            assert(date_char(t[k]));
        }
    }
    assert(date_char(t.last())) by {
        assert(t.last() == t[t.len() - 1]);
    }
    reveal_strlit("Date: ");
    assert(date_char(t[0]));
    if starts_with(t, "Date: "@) {
        assert(t.take(6)[0] == 'D');
    }
}

/// The recurrence the editor shows stays on its line and does not start
/// with the recurrence label.
proof fn lemma_recurring_shown_plain(t: RecurringType)
    ensures
        one_line(ascii_lower(recurring_name(t))),
        !starts_with(ascii_lower(recurring_name(t)), "Recurring: "@),
{
    recurring_editor_roundtrip(t);
    reveal_strlit("Recurring: ");
    reveal_strlit("OneTime");
    reveal_strlit("Daily");
    reveal_strlit("Weekly");
    reveal_strlit("Fortnightly");
    reveal_strlit("Monthly");
    reveal_strlit("Quarterly");
    reveal_strlit("Biannual");
    reveal_strlit("Yearly");
    reveal_strlit("onetime");
    reveal_strlit("daily");
    reveal_strlit("weekly");
    reveal_strlit("fortnightly");
    reveal_strlit("monthly");
    reveal_strlit("quarterly");
    reveal_strlit("biannual");
    reveal_strlit("yearly");
    let shown = ascii_lower(recurring_name(t));
    match t {
        RecurringType::OneTime => assert(shown =~= "onetime"@),
        RecurringType::Daily => assert(shown =~= "daily"@),
        RecurringType::Weekly => assert(shown =~= "weekly"@),
        RecurringType::Fortnightly => assert(shown =~= "fortnightly"@),
        RecurringType::Monthly => assert(shown =~= "monthly"@),
        RecurringType::Quarterly => assert(shown =~= "quarterly"@),
        RecurringType::Biannual => assert(shown =~= "biannual"@),
        RecurringType::Yearly => assert(shown =~= "yearly"@),
    }
    assert(97 <= shown[0] as int && shown[0] as int <= 122);
    assert forall|i: int| 0 <= i < shown.len() implies 97 <= (#[trigger] shown[i]) as int && shown[i]
        as int <= 122 by {
        match t {
            RecurringType::OneTime => assert(shown =~= "onetime"@),
            RecurringType::Daily => assert(shown =~= "daily"@),
            RecurringType::Weekly => assert(shown =~= "weekly"@),
            RecurringType::Fortnightly => assert(shown =~= "fortnightly"@),
            RecurringType::Monthly => assert(shown =~= "monthly"@),
            RecurringType::Quarterly => assert(shown =~= "quarterly"@),
            RecurringType::Biannual => assert(shown =~= "biannual"@),
            RecurringType::Yearly => assert(shown =~= "yearly"@),
        }
    }
    if shown.contains('\n') {
        let k = choose|k: int| 0 <= k < shown.len() && shown[k] == '\n';
        assert(97 <= shown[k] as int);
    }
    assert(shown.last() == shown[shown.len() - 1]);
    if starts_with(shown, "Recurring: "@) {
        assert(shown.take(11)[0] == 'R');
    }
}

/// The description a reminder shows in the editor: its own, or nothing.
pub open spec fn description_text(r: Reminder) -> Seq<char> {
    match r.description {
        Some(d) => d@,
        None => Seq::empty(),
    }
}

/// Editing a reminder and handing the text back unchanged reads back its
/// name, its printed date, its description and its people's names, and a
/// recurrence that reads as its own. This holds when the name and the
/// description, and the people's names joined with commas, stay on their
/// lines and do not start with their labels. The people read back are the
/// joined names split at the commas: the names themselves when there is at
/// least one and none holds a comma.
#[verifier::rlimit(40)]
pub proof fn reminder_edit_unchanged(rem: Reminder)
    requires
        valid_ymd(rem.date@.0, rem.date@.1, rem.date@.2),
        one_line(rem.name@),
        !starts_with(rem.name@, "Name: "@),
        one_line(description_text(rem)),
        !starts_with(description_text(rem), "Description: "@),
        one_line(join_with(people_names(rem.people@), ","@)),
        !starts_with(join_with(people_names(rem.people@), ","@), "People: "@),
    ensures
        ({
            let v = reminder_vars(rem, None, None, None, None);
            let st = reminder_editor_fold(
                lines_of(reminder_form(v[1].1, v[0].1, v[3].1, v[2].1, v[4].1)),
            );
            &&& !st.error
            &&& st.name == rem.name@
            &&& st.date == Some(iso_date_text(rem.date@.0, rem.date@.1, rem.date@.2))
            &&& st.recurring_type matches Some(shown) && recurring_from_cli_name(shown) == Some(
                rem.recurring,
            )
            &&& st.description == Some(description_text(rem))
            &&& st.people == split_chars(join_with(people_names(rem.people@), ","@), ',')
            &&& (rem.people@.len() >= 1 && forall|i: int|
                0 <= i < rem.people@.len() ==> !(#[trigger] rem.people@[i]).name@.contains(','))
                ==> st.people == people_names(rem.people@)
        }),
{
    let v = reminder_vars(rem, None, None, None, None);
    printed_date_is_plain(rem.date@.0, rem.date@.1, rem.date@.2);
    lemma_recurring_shown_plain(rem.recurring);
    recurring_editor_roundtrip(rem.recurring);
    reminder_form_reads_back(v[1].1, v[0].1, v[3].1, v[2].1, v[4].1);
    reveal_strlit(",");
    assert(","@ == seq![',']);
    let names = people_names(rem.people@);
    if rem.people@.len() >= 1 && forall|i: int|
        0 <= i < rem.people@.len() ==> !(#[trigger] rem.people@[i]).name@.contains(',') {
        assert forall|i: int| 0 <= i < names.len() implies !(#[trigger] names[i]).contains(',') by {
            assert(names[i] == rem.people@[i].name@);
        }
        split_of_join(names, ',');
    }
}

/// The type the editor shows for an activity of a type other than
/// `InPerson` stays on its line and does not start with the type label.
proof fn lemma_activity_type_shown_plain(t: ActivityType)
    requires
        t != ActivityType::InPerson,
    ensures
        one_line(ascii_lower(activity_type_name(t))),
        !starts_with(ascii_lower(activity_type_name(t)), "Activity Type: "@),
{
    reveal_strlit("Activity Type: ");
    reveal_strlit("Phone");
    reveal_strlit("Online");
    reveal_strlit("phone");
    reveal_strlit("online");
    let shown = ascii_lower(activity_type_name(t));
    match t {
        ActivityType::Phone => assert(shown =~= "phone"@),
        ActivityType::Online => assert(shown =~= "online"@),
        ActivityType::InPerson => {},
    }
    assert forall|i: int| 0 <= i < shown.len() implies 97 <= (#[trigger] shown[i]) as int && shown[i]
        as int <= 122 by {
        match t {
            ActivityType::Phone => assert(shown =~= "phone"@),
            ActivityType::Online => assert(shown =~= "online"@),
            ActivityType::InPerson => {},
        }
    }
    if shown.contains('\n') {
        let k = choose|k: int| 0 <= k < shown.len() && shown[k] == '\n';
        assert(97 <= shown[k] as int);
    }
    assert(shown.last() == shown[shown.len() - 1]);
    if starts_with(shown, "Activity Type: "@) {
        assert(shown.take(15)[0] == 'A');
    }
}

/// Editing an activity and handing the text back unchanged reads back its
/// name, its printed date, its content and its people's names, and a type
/// that reads as its own, for every type but `InPerson`. This holds when
/// the name, the content, and the people's names joined with commas, stay
/// on their lines and do not start with their labels. The people read back
/// are the joined names split at the commas: the names themselves when
/// there is at least one and none holds a comma.
#[verifier::rlimit(40)]
pub proof fn activity_edit_unchanged(a: Activity)
    requires
        valid_ymd(a.date@.0, a.date@.1, a.date@.2),
        a.activity_type != ActivityType::InPerson,
        one_line(a.name@),
        !starts_with(a.name@, "Name: "@),
        one_line(a.content@),
        !starts_with(a.content@, "Content: "@),
        one_line(join_with(people_names(a.people@), ","@)),
        !starts_with(join_with(people_names(a.people@), ","@), "People: "@),
    ensures
        ({
            let v = activity_vars(a, None, None, None, None);
            let st = activity_editor_fold(
                lines_of(activity_form(v[0].1, v[1].1, v[2].1, v[3].1, v[4].1)),
            );
            &&& !st.error
            &&& st.name == a.name@
            &&& st.date == Some(iso_date_text(a.date@.0, a.date@.1, a.date@.2))
            &&& st.activity_type matches Some(shown) && activity_type_from_name(shown) == Some(
                a.activity_type,
            )
            &&& st.content == Some(a.content@)
            &&& st.people == split_chars(join_with(people_names(a.people@), ","@), ',')
            &&& (a.people@.len() >= 1 && forall|i: int|
                0 <= i < a.people@.len() ==> !(#[trigger] a.people@[i]).name@.contains(','))
                ==> st.people == people_names(a.people@)
        }),
{
    let v = activity_vars(a, None, None, None, None);
    printed_date_is_plain(a.date@.0, a.date@.1, a.date@.2);
    lemma_activity_type_shown_plain(a.activity_type);
    activity_type_editor_roundtrip(a.activity_type);
    activity_form_reads_back(v[0].1, v[1].1, v[2].1, v[3].1, v[4].1);
    reveal_strlit(",");
    assert(","@ == seq![',']);
    let names = people_names(a.people@);
    if a.people@.len() >= 1 && forall|i: int|
        0 <= i < a.people@.len() ==> !(#[trigger] a.people@[i]).name@.contains(',') {
        assert forall|i: int| 0 <= i < names.len() implies !(#[trigger] names[i]).contains(',') by {
            assert(names[i] == a.people@[i].name@);
        }
        split_of_join(names, ',');
    }
}

/// Editing a note and handing the text back unchanged reads back its
/// printed date, its content and its people's names. This holds when the
/// content, and the people's names joined with commas, stay on their lines
/// and do not start with their labels. The people read back are the joined
/// names split at the commas: the names themselves when there is at least
/// one and none holds a comma.
#[verifier::rlimit(40)]
pub proof fn note_edit_unchanged(n: Note)
    requires
        valid_ymd(n.date@.0, n.date@.1, n.date@.2),
        one_line(n.content@),
        !starts_with(n.content@, "Content: "@),
        one_line(join_with(people_names(n.people@), ","@)),
        !starts_with(join_with(people_names(n.people@), ","@), "People: "@),
    ensures
        ({
            let v = note_vars(n, None, None);
            let st = note_editor_fold(lines_of(note_form(v[0].1, v[1].1, v[2].1)));
            &&& !st.error
            &&& st.date == iso_date_text(n.date@.0, n.date@.1, n.date@.2)
            &&& st.content == n.content@
            &&& st.people == split_chars(join_with(people_names(n.people@), ","@), ',')
            &&& (n.people@.len() >= 1 && forall|i: int|
                0 <= i < n.people@.len() ==> !(#[trigger] n.people@[i]).name@.contains(','))
                ==> st.people == people_names(n.people@)
        }),
{
    let v = note_vars(n, None, None);
    printed_date_is_plain(n.date@.0, n.date@.1, n.date@.2);
    note_form_reads_back(v[0].1, v[1].1, v[2].1);
    reveal_strlit(",");
    assert(","@ == seq![',']);
    let names = people_names(n.people@);
    if n.people@.len() >= 1 && forall|i: int|
        0 <= i < n.people@.len() ==> !(#[trigger] n.people@[i]).name@.contains(',') {
        assert forall|i: int| 0 <= i < names.len() implies !(#[trigger] names[i]).contains(',') by {
            assert(names[i] == n.people@[i].name@);
        }
        split_of_join(names, ',');
    }
}

/// Reading `type:value` splits that each have a type and a value succeeds
/// exactly when every type is `phone`, `whatsapp` or `email`. It then gives
/// one (kind, value) per split, in order; otherwise it quotes the first
/// split of another type as `type:value`.
#[verifier::rlimit(40)]
pub proof fn contact_entries_whole(splits: Seq<Seq<Seq<char>>>)
    requires
        splits_complete(splits),
    ensures
        contact_info_entries(splits) is Ok <==> known_tags(splits),
        contact_info_entries(splits) matches Ok(e) ==> e.len() == splits.len() && forall|i: int|
            0 <= i < splits.len() ==> #[trigger] e[i] == (
                contact_kind_from_tag(splits[i][0])->0,
                splits[i][1],
            ),
        contact_info_entries(splits) matches Err(t) ==> exists|k: int|
            0 <= k < splits.len() && contact_kind_from_tag(splits[k][0]) is None && known_tags(
                splits.take(k),
            ) && t == (#[trigger] splits[k])[0] + seq![':'] + splits[k][1],
    decreases splits.len(),
{
    if splits.len() > 0 {
        let init = splits.drop_last();
        let last = splits.last();
        assert(last == splits[splits.len() - 1]);
        assert forall|i: int| 0 <= i < init.len() implies #[trigger] init[i].len() >= 2 by {
            assert(init[i] == splits[i]);
        }
        contact_entries_whole(init);
        match contact_info_entries(init) {
            Err(t) => {
                let k = choose|k: int|
                    0 <= k < init.len() && contact_kind_from_tag(init[k][0]) is None && known_tags(
                        init.take(k),
                    ) && t == (#[trigger] init[k])[0] + seq![':'] + init[k][1];
                assert(init[k] == splits[k]);
                assert(splits.take(k) =~= init.take(k));
                assert(!known_tags(splits)) by {
                    assert(contact_kind_from_tag(splits[k][0]) is None);
                }
            },
            Ok(prev) => {
                assert(known_tags(init));
                match contact_kind_from_tag(last[0]) {
                    Some(kd) => {
                        let e = prev.push((kd, last[1]));
                        assert forall|i: int| 0 <= i < splits.len() implies contact_kind_from_tag(
                            (#[trigger] splits[i])[0],
                        ) is Some by {
                            if i < init.len() {
                                assert(init[i] == splits[i]);
                            }
                        }
                        assert forall|i: int| 0 <= i < splits.len() implies #[trigger] e[i] == (
                            contact_kind_from_tag(splits[i][0])->0,
                            splits[i][1],
                        ) by {
                            if i < init.len() {
                                assert(init[i] == splits[i]);
                                assert(e[i] == prev[i]);
                            }
                        }
                    },
                    None => {
                        let k = splits.len() - 1;
                        assert(splits.take(k) =~= init);
                        assert(!known_tags(splits)) by {
                            assert(contact_kind_from_tag(splits[k][0]) is None);
                        }
                    },
                }
            },
        }
    }
}

/// Listing reminders keeps, in order, exactly those dated after today,
/// or every one of them when past ones are asked for: a reminder is kept
/// if and only if its year is later than today's, or the year is the same
/// and its month later, or year and month are the same and its day later.
pub proof fn upcoming_keeps_exactly_later(rs: Seq<Reminder>, include_past: bool, today: (int, int, int))
    ensures
        upcoming(rs, include_past, today) == rs.filter(
            |r: Reminder|
                include_past || today.0 < r.date@.0 || (today.0 == r.date@.0 && today.1 < r.date@.1)
                    || (today.0 == r.date@.0 && today.1 == r.date@.1 && today.2 < r.date@.2),
        ),
    decreases rs.len(),
{
    reveal(Seq::filter);
    if rs.len() > 0 {
        upcoming_keeps_exactly_later(rs.drop_last(), include_past, today);
    }
}

/// Without past ones, every reminder dated after today is listed.
pub proof fn upcoming_lists_every_later(rs: Seq<Reminder>, today: (int, int, int), i: int)
    requires
        0 <= i < rs.len(),
        today.0 < rs[i].date@.0 || (today.0 == rs[i].date@.0 && today.1 < rs[i].date@.1) || (
        today.0 == rs[i].date@.0 && today.1 == rs[i].date@.1 && today.2 < rs[i].date@.2),
    ensures
        upcoming(rs, false, today).contains(rs[i]),
{
    let pred = |r: Reminder|
        false || today.0 < r.date@.0 || (today.0 == r.date@.0 && today.1 < r.date@.1) || (today.0
            == r.date@.0 && today.1 == r.date@.1 && today.2 < r.date@.2);
    upcoming_keeps_exactly_later(rs, false, today);
    rs.lemma_filter_contains(pred, i);
}

/// The calendar export keeps, in order, exactly the birthdays when
/// birthdays or all are asked for and exactly the reminders when reminders
/// or all are asked for: whether a reminder is exported does not depend on
/// the birthdays flag, nor whether a birthday is on the reminders flag.
pub proof fn export_keeps_by_flags(s: Seq<Event>, birthdays: bool, reminders: bool, all: bool)
    ensures
        exported_events(s, birthdays, reminders, all) == s.filter(
            |e: Event|
                match e.details {
                    EventType::Person(_) => birthdays || all,
                    EventType::Reminder(_) => reminders || all,
                },
        ),
    decreases s.len(),
{
    reveal(Seq::filter);
    if s.len() > 0 {
        export_keeps_by_flags(s.drop_last(), birthdays, reminders, all);
    }
}

/// The people who get a birthday event are, in order, exactly those whose
/// birthday is known, whatever else is recorded of them.
pub proof fn birthday_events_are_known_birthdays(people: Seq<Person>)
    ensures
        with_birthday(people) == people.filter(|p: Person| p.birthday is Some),
    decreases people.len(),
{
    reveal(Seq::filter);
    if people.len() > 0 {
        birthday_events_are_known_birthdays(people.drop_last());
    }
}

/// A new person's contact infos are, in order, one (kind, value) for each
/// `type:value` whose type names a kind, of that kind; the others are
/// quoted back as `type:value`, in order.
pub proof fn contacts_by_tag(splits: Seq<Seq<Seq<char>>>)
    ensures
        known_contacts(splits) == splits.filter(
            |s: Seq<Seq<char>>| contact_kind_from_tag(s[0]) is Some,
        ).map_values(|s: Seq<Seq<char>>| (contact_kind_from_tag(s[0])->0, s[1])),
        unknown_contacts(splits) == splits.filter(
            |s: Seq<Seq<char>>| contact_kind_from_tag(s[0]) is None,
        ).map_values(|s: Seq<Seq<char>>| s[0] + seq![':'] + s[1]),
    decreases splits.len(),
{
    reveal(Seq::filter);
    if splits.len() > 0 {
        contacts_by_tag(splits.drop_last());
        let kp = |s: Seq<Seq<char>>| contact_kind_from_tag(s[0]) is Some;
        let up = |s: Seq<Seq<char>>| contact_kind_from_tag(s[0]) is None;
        let kf = |s: Seq<Seq<char>>| (contact_kind_from_tag(s[0])->0, s[1]);
        let uf = |s: Seq<Seq<char>>| s[0] + seq![':'] + s[1];
        let kd = splits.drop_last().filter(kp);
        let ud = splits.drop_last().filter(up);
        assert(kd.push(splits.last()).map_values(kf) =~= kd.map_values(kf).push(kf(splits.last())));
        assert(ud.push(splits.last()).map_values(uf) =~= ud.map_values(uf).push(uf(splits.last())));
    }
}

/// When every type is known, contact info `i` of a new person has the
/// kind that the type of `type:value` number `i` names, and its value.
pub proof fn contacts_each_of_its_tag(splits: Seq<Seq<Seq<char>>>)
    requires
        unknown_contacts(splits).len() == 0,
    ensures
        known_contacts(splits).len() == splits.len(),
        forall|i: int|
            0 <= i < splits.len() ==> #[trigger] known_contacts(splits)[i] == (
                contact_kind_from_tag(splits[i][0])->0,
                splits[i][1],
            ),
    decreases splits.len(),
{
    if splits.len() > 0 {
        let init = splits.drop_last();
        match contact_kind_from_tag(splits.last()[0]) {
            Some(_) => {},
            None => {
                assert(unknown_contacts(splits).len() > 0);
            },
        }
        contacts_each_of_its_tag(init);
        assert forall|i: int| 0 <= i < splits.len() implies #[trigger] known_contacts(splits)[i] == (
            contact_kind_from_tag(splits[i][0])->0,
            splits[i][1],
        ) by {
            if i < init.len() {
                assert(init[i] == splits[i]);
            }
        }
    }
}

/// A printed person with no notes ends with the empty notes line.
pub proof fn person_text_without_notes(p: Person)
    requires
        p.notes@.len() == 0,
    ensures
        person_text(p).len() >= 9,
        person_text(p).skip(person_text(p).len() - 9) == "\nnotes: \n"@,
{
    reveal_strlit("\nnotes: ");
    reveal_strlit("\n");
    reveal_strlit("\nnotes: \n");
    assert(note_blocks(p.notes@) =~= Seq::<char>::empty());
    let t = person_text(p);
    assert(t.skip(t.len() - 9) =~= "\nnotes: \n"@);
}

/// What a printed person shows before its contact infos.
pub open spec fn before_contact_infos(p: Person) -> Seq<char> {
    "person id: "@ + decimal(p.id as nat) + "\nname: "@ + p.name@ + "\nbirthday: "@ + match p.birthday {
        Some(b) => iso_date_text(b@.0, b@.1, b@.2),
        None => Seq::empty(),
    } + "\ncontact_info: "@
}

/// What a printed person shows after its contact infos.
pub open spec fn after_contact_infos(p: Person) -> Seq<char> {
    "\nactivities: "@ + activity_blocks(p.activities@) + "\nreminders: "@ + reminder_blocks(
        p.reminders@,
    ) + "\nnotes: "@ + note_blocks(p.notes@) + "\n"@
}

/// What a printed person shows after its activities.
pub open spec fn after_activities(p: Person) -> Seq<char> {
    "\nreminders: "@ + reminder_blocks(p.reminders@) + "\nnotes: "@ + note_blocks(p.notes@) + "\n"@
}

/// What a printed person shows after its reminders.
pub open spec fn after_reminders(p: Person) -> Seq<char> {
    "\nnotes: "@ + note_blocks(p.notes@) + "\n"@
}

/// Two pieces after a head group with each other.
proof fn lemma_regroup2(x: Seq<char>, y1: Seq<char>, y2: Seq<char>)
    ensures
        x + y1 + y2 == x + (y1 + y2),
{
    assert(x + y1 + y2 =~= x + (y1 + y2));
}

/// Three pieces after a head group with each other.
proof fn lemma_regroup3(x: Seq<char>, y1: Seq<char>, y2: Seq<char>, y3: Seq<char>)
    ensures
        x + y1 + y2 + y3 == x + (y1 + y2 + y3),
{
    lemma_regroup2(x, y1, y2);
    lemma_regroup2(x, y1 + y2, y3);
}

/// Five pieces after a head group with each other.
proof fn lemma_regroup5(x: Seq<char>, y1: Seq<char>, y2: Seq<char>, y3: Seq<char>, y4: Seq<char>, y5: Seq<char>)
    ensures
        x + y1 + y2 + y3 + y4 + y5 == x + (y1 + y2 + y3 + y4 + y5),
{
    lemma_regroup3(x, y1, y2, y3);
    lemma_regroup2(x, y1 + y2 + y3, y4);
    lemma_regroup2(x, y1 + y2 + y3 + y4, y5);
}

/// Seven pieces after a head group with each other.
proof fn lemma_regroup7(
    x: Seq<char>,
    y1: Seq<char>,
    y2: Seq<char>,
    y3: Seq<char>,
    y4: Seq<char>,
    y5: Seq<char>,
    y6: Seq<char>,
    y7: Seq<char>,
)
    ensures
        x + y1 + y2 + y3 + y4 + y5 + y6 + y7 == x + (y1 + y2 + y3 + y4 + y5 + y6 + y7),
{
    lemma_regroup5(x, y1, y2, y3, y4, y5);
    lemma_regroup2(x, y1 + y2 + y3 + y4 + y5, y6);
    lemma_regroup2(x, y1 + y2 + y3 + y4 + y5 + y6, y7);
}

/// A printed person is what comes before its contact infos, their lines,
/// and what comes after them; and what comes after them is the activities'
/// header, their blocks and what comes after the activities; and so on.
#[verifier::rlimit(30)]
proof fn lemma_person_text_parts(p: Person)
    ensures
        person_text(p) == before_contact_infos(p) + contact_info_lines(p.contact_info@)
            + after_contact_infos(p),
        person_text(p) == before_contact_infos(p) + contact_info_lines(p.contact_info@)
            + "\nactivities: "@ + activity_blocks(p.activities@) + after_activities(p),
        person_text(p) == before_contact_infos(p) + contact_info_lines(p.contact_info@)
            + "\nactivities: "@ + activity_blocks(p.activities@) + "\nreminders: "@ + reminder_blocks(
            p.reminders@,
        ) + after_reminders(p),
{
    let h = before_contact_infos(p);
    let c = contact_info_lines(p.contact_info@);
    let ya = "\nactivities: "@;
    let a = activity_blocks(p.activities@);
    let yr = "\nreminders: "@;
    let r = reminder_blocks(p.reminders@);
    let yn = "\nnotes: "@;
    let n = note_blocks(p.notes@);
    let z = "\n"@;
    lemma_regroup7(h + c, ya, a, yr, r, yn, n, z);
    lemma_regroup5(h + c + ya + a, yr, r, yn, n, z);
    lemma_regroup3(h + c + ya + a + yr + r, yn, n, z);
}

/// One more block at the end of the blocks of a text that is a head, the
/// blocks and a tail lands right before the tail.
proof fn lemma_insert_block(h: Seq<char>, b: Seq<char>, blk: Seq<char>, tail: Seq<char>)
    ensures
        ({
            let t = h + b + tail;
            let k = t.len() - tail.len();
            &&& 0 <= k <= t.len()
            &&& t.take(k) == h + b
            &&& t.skip(k) == tail
            &&& h + (b + blk) + tail == t.take(k) + blk + t.skip(k)
        }),
{
    let t = h + b + tail;
    let k = t.len() - tail.len();
    assert(t.take(k) =~= h + b);
    assert(t.skip(k) =~= tail);
    lemma_regroup2(h, b, blk);
}

/// One more note of a person prints, after the notes printed before it,
/// one more block with that note's date and content.
#[verifier::rlimit(30)]
pub proof fn person_text_one_more_note(p1: Person, p2: Person, n: Note)
    requires
        p2.id == p1.id,
        p2.name@ == p1.name@,
        p2.birthday == p1.birthday,
        p2.contact_info@ == p1.contact_info@,
        p2.activities@ == p1.activities@,
        p2.reminders@ == p1.reminders@,
        p2.notes@ == p1.notes@.push(n),
    ensures
        person_text(p2) == person_text(p1).drop_last() + ("\n\t"@ + "date: "@ + iso_date_text(
            n.date@.0,
            n.date@.1,
            n.date@.2,
        ) + "\n\t"@ + "content: "@ + n.content@ + "\n\t"@) + "\n"@,
{
    assert(p2.notes@.drop_last() =~= p1.notes@);
    lemma_person_text_parts(p1);
    lemma_person_text_parts(p2);
    let h = before_contact_infos(p1) + contact_info_lines(p1.contact_info@) + "\nactivities: "@
        + activity_blocks(p1.activities@) + "\nreminders: "@ + reminder_blocks(p1.reminders@)
        + "\nnotes: "@;
    let n1 = note_blocks(p1.notes@);
    assert(note_blocks(p2.notes@) == n1 + note_block(n));
    lemma_regroup2(h, n1, note_block(n));
    reveal_strlit("\n");
    let t1 = h + n1 + "\n"@;
    assert(t1.drop_last() =~= h + n1);
}

/// One more contact info of a person prints one more line, with its kind
/// and details, right before the activities.
#[verifier::rlimit(30)]
pub proof fn person_text_one_more_contact_info(p1: Person, p2: Person, c: ContactInfo)
    requires
        p2.id == p1.id,
        p2.name@ == p1.name@,
        p2.birthday == p1.birthday,
        p2.contact_info@ == p1.contact_info@.push(c),
        p2.activities@ == p1.activities@,
        p2.reminders@ == p1.reminders@,
        p2.notes@ == p1.notes@,
    ensures
        ({
            let t = person_text(p1);
            let k = t.len() - after_contact_infos(p1).len();
            &&& 0 <= k <= t.len()
            &&& t.skip(k) == after_contact_infos(p1)
            &&& person_text(p2) == t.take(k) + ("\n\t"@ + contact_kind_name(
                c.contact_info_type.kind(),
            ) + ": "@ + c.details@) + t.skip(k)
        }),
{
    assert(p2.contact_info@.drop_last() =~= p1.contact_info@);
    lemma_person_text_parts(p1);
    lemma_person_text_parts(p2);
    let l1 = contact_info_lines(p1.contact_info@);
    let kn = contact_kind_name(c.contact_info_type.kind());
    lemma_regroup3(l1, "\n\t"@, kn, ": "@);
    lemma_regroup2(l1, "\n\t"@ + kn + ": "@, c.details@);
    lemma_insert_block(
        before_contact_infos(p1),
        contact_info_lines(p1.contact_info@),
        "\n\t"@ + contact_kind_name(c.contact_info_type.kind()) + ": "@ + c.details@,
        after_contact_infos(p1),
    );
}

/// One more activity of a person prints one more block, with its name,
/// date, type, content and people, right before the reminders.
#[verifier::rlimit(30)]
pub proof fn person_text_one_more_activity(p1: Person, p2: Person, a: Activity)
    requires
        p2.id == p1.id,
        p2.name@ == p1.name@,
        p2.birthday == p1.birthday,
        p2.contact_info@ == p1.contact_info@,
        p2.activities@ == p1.activities@.push(a),
        p2.reminders@ == p1.reminders@,
        p2.notes@ == p1.notes@,
    ensures
        ({
            let t = person_text(p1);
            let k = t.len() - after_activities(p1).len();
            &&& 0 <= k <= t.len()
            &&& t.skip(k) == after_activities(p1)
            &&& person_text(p2) == t.take(k) + ("\n\t"@ + "name: "@ + a.name@ + "\n\t"@ + "date: "@
                + iso_date_text(a.date@.0, a.date@.1, a.date@.2) + "\n\t"@ + "activity type: "@
                + activity_type_name(a.activity_type) + "\n\t"@ + "content: "@ + a.content@ + "\n\t"@
                + "people: "@ + join_with(people_names(a.people@), ","@) + "\n\t"@) + t.skip(k)
        }),
{
    assert(p2.activities@.drop_last() =~= p1.activities@);
    lemma_person_text_parts(p1);
    lemma_person_text_parts(p2);
    lemma_insert_block(
        before_contact_infos(p1) + contact_info_lines(p1.contact_info@) + "\nactivities: "@,
        activity_blocks(p1.activities@),
        activity_block(a),
        after_activities(p1),
    );
}

/// One more reminder of a person prints one more block, with its name,
/// date and description where it has one, right before the notes.
#[verifier::rlimit(30)]
pub proof fn person_text_one_more_reminder(p1: Person, p2: Person, r: Reminder)
    requires
        p2.id == p1.id,
        p2.name@ == p1.name@,
        p2.birthday == p1.birthday,
        p2.contact_info@ == p1.contact_info@,
        p2.activities@ == p1.activities@,
        p2.reminders@ == p1.reminders@.push(r),
        p2.notes@ == p1.notes@,
    ensures
        ({
            let t = person_text(p1);
            let k = t.len() - after_reminders(p1).len();
            &&& 0 <= k <= t.len()
            &&& t.skip(k) == after_reminders(p1)
            &&& person_text(p2) == t.take(k) + ("\n\t"@ + "name: "@ + r.name@ + "\n\t"@ + "date: "@
                + iso_date_text(r.date@.0, r.date@.1, r.date@.2) + "\n\t"@ + match r.description {
                Some(d) => "description: "@ + d@ + "\n\t"@,
                None => Seq::empty(),
            }) + t.skip(k)
        }),
{
    assert(p2.reminders@.drop_last() =~= p1.reminders@);
    lemma_person_text_parts(p1);
    lemma_person_text_parts(p2);
    lemma_insert_block(
        before_contact_infos(p1) + contact_info_lines(p1.contact_info@) + "\nactivities: "@
            + activity_blocks(p1.activities@) + "\nreminders: "@,
        reminder_blocks(p1.reminders@),
        reminder_block(r),
        after_reminders(p1),
    );
}

/// Comma-separated ids read as a list exactly when every piece reads as an
/// id; the list then holds, in order, the id of each piece.
pub proof fn ids_read_piece_by_piece(pieces: Seq<Seq<char>>)
    ensures
        parse_ids_spec(pieces) is Some <==> forall|i: int|
            0 <= i < pieces.len() ==> parse_u64_spec(#[trigger] pieces[i]) is Some,
        parse_ids_spec(pieces) matches Some(ids) ==> ids.len() == pieces.len() && forall|i: int|
            0 <= i < pieces.len() ==> #[trigger] ids[i] == parse_u64_spec(pieces[i])->0,
    decreases pieces.len(),
{
    if pieces.len() > 0 {
        let init = pieces.drop_last();
        ids_read_piece_by_piece(init);
        assert(pieces.last() == pieces[pieces.len() - 1]);
        if parse_ids_spec(pieces) is Some {
            assert forall|i: int| 0 <= i < pieces.len() implies parse_u64_spec(
                #[trigger] pieces[i],
            ) is Some by {
                if i < init.len() {
                    assert(init[i] == pieces[i]);
                }
            }
            let ids = parse_ids_spec(pieces)->0;
            assert forall|i: int| 0 <= i < pieces.len() implies #[trigger] ids[i] == parse_u64_spec(
                pieces[i],
            )->0 by {
                if i < init.len() {
                    assert(init[i] == pieces[i]);
                }
            }
        } else {
            if forall|i: int| 0 <= i < pieces.len() ==> parse_u64_spec(#[trigger] pieces[i]) is Some {
                assert forall|i: int| 0 <= i < init.len() implies parse_u64_spec(
                    #[trigger] init[i],
                ) is Some by {
                    assert(init[i] == pieces[i]);
                }
            }
        }
    }
}

/// The digits of a number are digits and denote that number.
proof fn lemma_decimal_digits(n: nat)
    ensures
        decimal(n).len() > 0,
        all_digits(decimal(n)),
        digits_value(decimal(n)) == n,
    decreases n,
{
    if n < 10 {
        let d = decimal(n);
        assert(d.drop_last() =~= Seq::<char>::empty());
        assert(digit_value(digit_char(n as int)) == n);
        assert(d.last() == digit_char(n as int));
        assert(digits_value(d.drop_last()) == 0);
        assert(digits_value(d) == n);
        assert(is_digit(d[0]));
    } else {
        lemma_decimal_digits(n / 10);
        let d = decimal(n);
        let prev = decimal(n / 10);
        assert(d.drop_last() =~= prev);
        let k = (n % 10) as int;
        assert(d.last() == digit_char(k));
        assert(digit_value(digit_char(k)) == k);
        vstd::arithmetic::div_mod::lemma_fundamental_div_mod(n as int, 10);
        assert(digits_value(d) == digits_value(prev) * 10 + k);
        assert(digits_value(d) == n);
        assert forall|i: int| 0 <= i < d.len() implies is_digit(#[trigger] d[i]) by {
            if i < prev.len() {
                assert(d[i] == prev[i]);
            }
        }
    }
}

/// An id as it is printed reads back as that id.
pub proof fn printed_id_reads_back(n: u64)
    ensures
        parse_u64_spec(decimal(n as nat)) == Some(n),
{
    lemma_decimal_digits(n as nat);
    let d = decimal(n as nat);
    assert(is_digit(d[0]));
    assert(unsigned_digits(d) == d);
}

/// The stale contact infos are, in stored order, the ids of exactly those
/// stored ones of which no current contact info has both the kind and the
/// details.
pub proof fn stale_contacts_are_unmatched(stored: Seq<ContactInfo>, current: Seq<ContactInfo>)
    ensures
        stale_contacts(stored, current) == stored.filter(
            |c: ContactInfo|
                !(exists|i: int|
                    0 <= i < current.len() && (#[trigger] current[i]).contact_info_type.kind()
                        == c.contact_info_type.kind() && current[i].details@ == c.details@),
        ).map_values(|c: ContactInfo| c.id),
    decreases stored.len(),
{
    reveal(Seq::filter);
    if stored.len() > 0 {
        stale_contacts_are_unmatched(stored.drop_last(), current);
        let c = stored.last();
        let pred = |c: ContactInfo|
            !(exists|i: int|
                0 <= i < current.len() && (#[trigger] current[i]).contact_info_type.kind()
                    == c.contact_info_type.kind() && current[i].details@ == c.details@);
        let f = |c: ContactInfo| c.id;
        let prev = stored.drop_last().filter(pred);
        assert(prev.push(c).map_values(f) =~= prev.map_values(f).push(c.id));
        assert(has_contact_pair(current, contact_pair(c)) == !pred(c)) by {
            if has_contact_pair(current, contact_pair(c)) {
                let i = choose|i: int|
                    0 <= i < current.len() && contact_pair(#[trigger] current[i]) == contact_pair(c);
                contact_kind_stored_name_roundtrip(current[i].contact_info_type.kind());
                contact_kind_stored_name_roundtrip(c.contact_info_type.kind());
            }
            if !pred(c) {
                let i = choose|i: int|
                    0 <= i < current.len() && (#[trigger] current[i]).contact_info_type.kind()
                        == c.contact_info_type.kind() && current[i].details@ == c.details@;
                assert(contact_pair(current[i]) == contact_pair(c));
            }
        }
    }
}

/// Whether `s[i..j]` is what is left when white space is cut off both
/// ends of `s`: all before `i` and from `j` on is white space, and the
/// stretch, where it is not empty, neither starts nor ends with it.
pub open spec fn white_cut_at(s: Seq<char>, i: int, j: int) -> bool {
    &&& 0 <= i <= j <= s.len()
    &&& forall|k: int| 0 <= k < i ==> white_space(#[trigger] s[k])
    &&& forall|k: int| j <= k < s.len() ==> white_space(#[trigger] s[k])
    &&& i < j ==> !white_space(s[i]) && !white_space(s[j - 1])
}

/// Cutting white space off the front of a text that starts with it.
proof fn lemma_white_cut_front(s: Seq<char>, i: int, j: int)
    requires
        s.len() > 0,
        white_space(s[0]),
        white_cut_at(s.skip(1), i, j),
    ensures
        white_cut_at(s, i + 1, j + 1),
        s.skip(1).subrange(i, j) == s.subrange(i + 1, j + 1),
{
    let t = s.skip(1);
    assert(t.subrange(i, j) =~= s.subrange(i + 1, j + 1));
    assert forall|k: int| 0 <= k < i + 1 implies white_space(#[trigger] s[k]) by {
        if k > 0 {
            assert(s[k] == t[k - 1]);
        }
    }
    assert forall|k: int| j + 1 <= k < s.len() implies white_space(#[trigger] s[k]) by {
        assert(s[k] == t[k - 1]);
    }
    assert(i < j ==> s[i + 1] == t[i] && s[j] == t[j - 1]);
}

/// Cutting white space off the back of a text that ends with it.
proof fn lemma_white_cut_back(s: Seq<char>, i: int, j: int)
    requires
        s.len() > 0,
        white_space(s.last()),
        white_cut_at(s.drop_last(), i, j),
    ensures
        white_cut_at(s, i, j),
        s.drop_last().subrange(i, j) == s.subrange(i, j),
{
    let t = s.drop_last();
    assert(t.subrange(i, j) =~= s.subrange(i, j));
    assert forall|k: int| 0 <= k < i implies white_space(#[trigger] s[k]) by {
        assert(s[k] == t[k]);
    }
    assert forall|k: int| j <= k < s.len() implies white_space(#[trigger] s[k]) by {
        if k < t.len() {
            assert(s[k] == t[k]);
        } else {
            assert(s[k] == s.last());
        }
    }
    assert(i < j ==> s[i] == t[i] && s[j - 1] == t[j - 1]);
}

/// Trimming cuts white space off both ends and nothing else: what is left
/// is a stretch of the text that neither starts nor ends with white space,
/// and all that was cut before and after it is white space.
pub proof fn trimmed_cuts_white_ends(s: Seq<char>)
    ensures
        exists|i: int, j: int| white_cut_at(s, i, j) && trimmed(s) == s.subrange(i, j),
    decreases s.len(),
{
    if s.len() > 0 && white_space(s[0]) {
        let t = s.skip(1);
        trimmed_cuts_white_ends(t);
        let (i, j) = choose|i: int, j: int| white_cut_at(t, i, j) && trimmed(t) == t.subrange(i, j);
        lemma_white_cut_front(s, i, j);
        assert(white_cut_at(s, i + 1, j + 1) && trimmed(s) == s.subrange(i + 1, j + 1));
    } else if s.len() > 0 && white_space(s.last()) {
        let t = s.drop_last();
        trimmed_cuts_white_ends(t);
        let (i, j) = choose|i: int, j: int| white_cut_at(t, i, j) && trimmed(t) == t.subrange(i, j);
        lemma_white_cut_back(s, i, j);
        assert(white_cut_at(s, i, j) && trimmed(s) == s.subrange(i, j));
    } else {
        assert(s.subrange(0, s.len() as int) =~= s);
        if s.len() > 0 {
            assert(s[s.len() - 1] == s.last());
        }
        assert(white_cut_at(s, 0, s.len() as int));
    }
}

/// The people of a note or reminder print as one `name:` line each, in
/// order: none for no people, and one more person adds a line with their
/// name at the end.
pub proof fn people_lines_one_per_person(ps: Seq<Person>, p: Person)
    ensures
        people_lines(Seq::<Person>::empty()) == Seq::<char>::empty(),
        people_lines(ps.push(p)) == people_lines(ps) + ("\n\t"@ + "name: "@ + p.name@),
{
    assert(ps.push(p).drop_last() =~= ps);
    lemma_regroup3(people_lines(ps), "\n\t"@, "name: "@, p.name@);
}

} // verus!
