//! Events: birthdays of people and dated reminders, as the calendar shows
//! them.
use vstd::prelude::*;

use crate::date::{add_days, chrono_add_days, compact_date_text, iso_date_text, Date};
use crate::entities::person::{
    contact_info_lines, ContactInfo, join_people_names, people_names, push_contact_info_lines, Person,
};
use crate::entities::reminder::Reminder;
use crate::text::{join_with, push_str, string_of};

verus! {

/// What an event is about.
#[derive(Debug)]
pub enum EventType {
    Person(Person),
    Reminder(Reminder),
}

/// A dated event of the calendar.
#[derive(Debug)]
pub struct Event {
    pub date: Date,
    pub kind: String,
    pub details: EventType,
}

/// The people with a birthday, in order.
pub open spec fn with_birthday(people: Seq<Person>) -> Seq<Person>
    decreases people.len(),
{
    if people.len() == 0 {
        Seq::empty()
    } else if people.last().birthday is Some {
        with_birthday(people.drop_last()).push(people.last())
    } else {
        with_birthday(people.drop_last())
    }
}

/// Whether `e` is the birthday event of `p`.
pub open spec fn is_birthday_event(e: Event, p: Person) -> bool {
    &&& p.birthday matches Some(b) && e.date == b
    &&& e.kind@ == "Birthday"@
    &&& e.details == EventType::Person(p)
}

/// Whether `e` is the event of reminder `r`.
pub open spec fn is_reminder_event(e: Event, r: Reminder) -> bool {
    &&& e.date == r.date
    &&& e.kind@ == "Reminder"@
    &&& e.details == EventType::Reminder(r)
}

/// An event as it is printed.
pub open spec fn event_text(e: Event) -> Seq<char> {
    match e.details {
        EventType::Person(p) => "name: "@ + p.name@ + "\ndate: "@ + iso_date_text(
            e.date@.0,
            e.date@.1,
            e.date@.2,
        ) + "\nkind: "@ + e.kind@ + "\ncontact info: "@ + contact_info_lines(p.contact_info@)
            + "\n"@,
        EventType::Reminder(r) => "name: "@ + r.name@ + "\ndate: "@ + iso_date_text(
            e.date@.0,
            e.date@.1,
            e.date@.2,
        ) + "\nkind: "@ + e.kind@ + "\ndescription: "@ + match r.description {
            Some(d) => d@,
            None => "[Empty]"@,
        } + "\npeople: "@ + join_with(people_names(r.people@), ", "@) + "\n"@,
    }
}

impl Event {
    /// The number of days ahead to look: the given number, or ten years of
    /// 365 days when it is zero.
    pub fn horizon(days: u64) -> (d: u64)
        ensures
            days == 0 ==> d == 3650,
            days != 0 ==> d == days,
    {
        if days == 0 {
            10 * 365
        } else {
            days
        }
    }

    /// The last day to look at, `days` days after `today`, if chrono can
    /// hold it.
    pub fn date_limit(today: &Date, days: u64) -> (r: Option<Date>)
        ensures
            r is Some <==> chrono_add_days(today@.0, today@.1, today@.2, days as int) is Some,
            r matches Some(n) ==> chrono_add_days(today@.0, today@.1, today@.2, days as int) == Some(
                n@,
            ),
    {
        add_days(today, days)
    }

    /// The events of the calendar: a birthday for each person who has one,
    /// in order, then one event for each reminder, in order.
    pub fn collect(people: Vec<Person>, reminders: Vec<Reminder>) -> (events: Vec<Event>)
        ensures
            events@.len() == with_birthday(people@).len() + reminders@.len(),
            forall|i: int|
                0 <= i < with_birthday(people@).len() ==> is_birthday_event(
                    #[trigger] events@[i],
                    with_birthday(people@)[i],
                ),
            forall|j: int|
                0 <= j < reminders@.len() ==> is_reminder_event(
                    #[trigger] events@[with_birthday(people@).len() + j],
                    reminders@[j],
                ),
    {
        let ghost all_people = people@;
        let ghost all_reminders = reminders@;
        let mut events: Vec<Event> = Vec::new();
        let mut people = people;
        let n = people.len();
        let mut i: usize = 0;
        assert(all_people.take(0) =~= Seq::<Person>::empty());
        while people.len() > 0
            invariant
                n == all_people.len(),
                people@.len() == n - i,
                0 <= i <= n,
                people@ == all_people.skip(i as int),
                events@.len() == with_birthday(all_people.take(i as int)).len(),
                forall|k: int|
                    0 <= k < events@.len() ==> is_birthday_event(
                        #[trigger] events@[k],
                        with_birthday(all_people.take(i as int))[k],
                    ),
            decreases people@.len(),
        {
            let p = people.remove(0);
            assert(people@ =~= all_people.skip(i + 1));
            assert(all_people.take(i + 1).drop_last() =~= all_people.take(i as int));
            assert(all_people.take(i + 1).last() == all_people[i as int]);
            match p.birthday {
                Some(b) => {
                    let ghost before = events@;
                    events.push(
                        Event { date: b, kind: string_of("Birthday"), details: EventType::Person(p) },
                    );
                    assert(events@ =~= before.push(events@.last()));
                },
                None => {},
            }
            i = i + 1;
        }
        assert(all_people.take(n as int) =~= all_people);
        let base = events.len();
        let mut reminders = reminders;
        let m = reminders.len();
        let mut j: usize = 0;
        while reminders.len() > 0
            invariant
                m == all_reminders.len(),
                reminders@.len() == m - j,
                0 <= j <= m,
                reminders@ == all_reminders.skip(j as int),
                base == with_birthday(all_people).len(),
                events@.len() == base + j,
                forall|k: int|
                    0 <= k < base ==> is_birthday_event(
                        #[trigger] events@[k],
                        with_birthday(all_people)[k],
                    ),
                forall|k: int|
                    0 <= k < j ==> is_reminder_event(#[trigger] events@[base + k], all_reminders[k]),
            decreases reminders@.len(),
        {
            let r = reminders.remove(0);
            assert(reminders@ =~= all_reminders.skip(j + 1));
            let date = r.date;
            events.push(
                Event { date, kind: string_of("Reminder"), details: EventType::Reminder(r) },
            );
            j = j + 1;
        }
        events
    }

    /// The event as it is printed: a birthday with the contact infos of the
    /// person, a reminder with its description and people.
    pub fn to_string(&self) -> (s: String)
        ensures
            s@ == event_text(*self),
    {
        let mut s = String::new();
        match &self.details {
            EventType::Person(person) => {
                push_str(&mut s, "name: ");
                push_str(&mut s, person.name.as_str());
                push_str(&mut s, "\ndate: ");
                let date = self.date.to_iso_string();
                push_str(&mut s, date.as_str());
                push_str(&mut s, "\nkind: ");
                push_str(&mut s, self.kind.as_str());
                push_str(&mut s, "\ncontact info: ");
                push_contact_info_lines(&mut s, &person.contact_info);
                push_str(&mut s, "\n");
            },
            EventType::Reminder(reminder) => {
                push_str(&mut s, "name: ");
                push_str(&mut s, reminder.name.as_str());
                push_str(&mut s, "\ndate: ");
                let date = self.date.to_iso_string();
                push_str(&mut s, date.as_str());
                push_str(&mut s, "\nkind: ");
                push_str(&mut s, self.kind.as_str());
                push_str(&mut s, "\ndescription: ");
                match &reminder.description {
                    Some(d) => push_str(&mut s, d.as_str()),
                    None => push_str(&mut s, "[Empty]"),
                }
                push_str(&mut s, "\npeople: ");
                let names = join_people_names(&reminder.people, ", ");
                push_str(&mut s, names.as_str());
                push_str(&mut s, "\n");
            },
        }
        s
    }
}

/// Whether the month and day of `a` come no later in the year than those
/// of `b`.
pub open spec fn day_le(a: Date, b: Date) -> bool {
    a@.1 < b@.1 || (a@.1 == b@.1 && a@.2 <= b@.2)
}

/// Whether two dates fall on the same day of the year.
pub open spec fn same_day(a: Date, b: Date) -> bool {
    a@.1 == b@.1 && a@.2 == b@.2
}

/// Whether `r` is `s` sorted by month and day, keeping the order of events
/// of the same day: the event at place `k` of `r` is the one at place
/// `p[k]` of `s`, and `p` takes each place of `s` once.
pub open spec fn sorted_by_day_from(s: Seq<Event>, r: Seq<Event>, p: Seq<int>) -> bool {
    &&& r.len() == s.len()
    &&& p.len() == s.len()
    &&& forall|k: int| 0 <= k < p.len() ==> 0 <= #[trigger] p[k] < s.len() && r[k] == s[p[k]]
    &&& forall|k: int, l: int| 0 <= k < l < p.len() ==> #[trigger] p[k] != #[trigger] p[l]
    &&& forall|k: int, l: int|
        0 <= k < l < r.len() ==> day_le(#[trigger] r[k].date, #[trigger] r[l].date)
    &&& forall|k: int, l: int|
        0 <= k < l < r.len() && same_day(#[trigger] r[k].date, #[trigger] r[l].date) ==> p[k]
            < p[l]
}

/// Whether `a` falls later in the year than `b`.
fn day_after(a: &Date, b: &Date) -> (r: bool)
    ensures
        r == !day_le(*a, *b),
{
    a.month() > b.month() || (a.month() == b.month() && a.day() > b.day())
}

/// Inserting `i` at place `j` into places that each come from below `i`, no
/// two the same, gives places that each come from below `i + 1`, no two the
/// same, and keeps what each place holds.
#[verifier::rlimit(40)]
proof fn lemma_insert_places(orig: Seq<Event>, sorted: Seq<Event>, p: Seq<int>, i: int, j: int)
    requires
        0 <= i < orig.len(),
        sorted.len() == i,
        p.len() == i,
        0 <= j <= i,
        forall|k: int| 0 <= k < i ==> 0 <= #[trigger] p[k] < i && sorted[k] == orig[p[k]],
        forall|k: int, l: int| 0 <= k < l < i ==> #[trigger] p[k] != #[trigger] p[l],
    ensures
        ({
            let s2 = sorted.insert(j, orig[i]);
            let p2 = p.insert(j, i);
            &&& s2.len() == i + 1
            &&& p2.len() == i + 1
            &&& forall|k: int|
                0 <= k < i + 1 ==> 0 <= #[trigger] p2[k] < i + 1 && s2[k] == orig[p2[k]]
            &&& forall|k: int, l: int| 0 <= k < l < i + 1 ==> #[trigger] p2[k] != #[trigger] p2[l]
        }),
{
    let s2 = sorted.insert(j, orig[i]);
    let p2 = p.insert(j, i);
    sorted.insert_ensures(j, orig[i]);
    p.insert_ensures(j, i);
    assert forall|k: int| 0 <= k < i + 1 implies 0 <= #[trigger] p2[k] < i + 1 && s2[k]
        == orig[p2[k]] by {
        if k < j {
            assert(p2[k] == p[k] && s2[k] == sorted[k]);
        } else if k > j {
            assert(p2[k] == p[k - 1] && s2[k] == sorted[k - 1]);
        }
    }
    assert forall|k: int, l: int| 0 <= k < l < i + 1 implies #[trigger] p2[k] != #[trigger] p2[l] by {
        if k < j && l > j {
            assert(p2[k] == p[k] && p2[l] == p[l - 1]);
        } else if l < j {
            assert(p2[k] == p[k] && p2[l] == p[l]);
        } else if k > j {
            assert(p2[k] == p[k - 1] && p2[l] == p[l - 1]);
        } else if k == j {
            assert(p2[l] == p[l - 1]);
        } else {
            assert(p2[k] == p[k]);
        }
    }
}

/// Inserting an event after every event of no later day and before every
/// event of a later day keeps events sorted by day.
proof fn lemma_insert_order(sorted: Seq<Event>, e: Event, j: int)
    requires
        0 <= j <= sorted.len(),
        forall|k: int, l: int|
            0 <= k < l < sorted.len() ==> day_le(#[trigger] sorted[k].date, #[trigger] sorted[l].date),
        j > 0 ==> day_le(sorted[j - 1].date, e.date),
        forall|k: int| j <= k < sorted.len() ==> !day_le(#[trigger] sorted[k].date, e.date),
    ensures
        forall|k: int, l: int|
            0 <= k < l < sorted.len() + 1 ==> day_le(
                #[trigger] sorted.insert(j, e)[k].date,
                #[trigger] sorted.insert(j, e)[l].date,
            ),
{
    let s2 = sorted.insert(j, e);
    sorted.insert_ensures(j, e);
    assert forall|k: int, l: int| 0 <= k < l < sorted.len() + 1 implies day_le(
        #[trigger] s2[k].date,
        #[trigger] s2[l].date,
    ) by {
        if l < j {
            assert(s2[k] == sorted[k] && s2[l] == sorted[l]);
        } else if k > j {
            assert(s2[k] == sorted[k - 1] && s2[l] == sorted[l - 1]);
        } else if k < j && l == j {
            assert(s2[k] == sorted[k]);
            if k < j - 1 {
                assert(day_le(sorted[k].date, sorted[j - 1].date));
            }
        } else if k == j {
            assert(s2[l] == sorted[l - 1]);
            assert(!day_le(sorted[l - 1].date, e.date));
        } else {
            assert(s2[k] == sorted[k] && s2[l] == sorted[l - 1]);
        }
    }
}

/// Inserting the event from place `i` after every event of no later day and
/// before every event of a later day keeps events of the same day in the
/// order of their places.
proof fn lemma_insert_stable(sorted: Seq<Event>, p: Seq<int>, e: Event, i: int, j: int)
    requires
        sorted.len() == i,
        p.len() == i,
        0 <= j <= i,
        forall|k: int| 0 <= k < i ==> #[trigger] p[k] < i,
        forall|k: int, l: int|
            0 <= k < l < i && same_day(#[trigger] sorted[k].date, #[trigger] sorted[l].date)
                ==> p[k] < p[l],
        forall|k: int| j <= k < i ==> !day_le(#[trigger] sorted[k].date, e.date),
    ensures
        forall|k: int, l: int|
            0 <= k < l < i + 1 && same_day(
                #[trigger] sorted.insert(j, e)[k].date,
                #[trigger] sorted.insert(j, e)[l].date,
            ) ==> p.insert(j, i)[k] < p.insert(j, i)[l],
{
    let s2 = sorted.insert(j, e);
    let p2 = p.insert(j, i);
    sorted.insert_ensures(j, e);
    p.insert_ensures(j, i);
    assert forall|k: int, l: int|
        0 <= k < l < i + 1 && same_day(#[trigger] s2[k].date, #[trigger] s2[l].date) implies p2[k]
        < p2[l] by {
        if l < j {
            assert(s2[k] == sorted[k] && s2[l] == sorted[l]);
            assert(p2[k] == p[k] && p2[l] == p[l]);
        } else if k > j {
            assert(s2[k] == sorted[k - 1] && s2[l] == sorted[l - 1]);
            assert(p2[k] == p[k - 1] && p2[l] == p[l - 1]);
        } else if k < j && l == j {
            assert(p2[k] == p[k]);
        } else if k == j {
            assert(s2[l] == sorted[l - 1]);
            assert(!day_le(sorted[l - 1].date, e.date));
        } else {
            assert(s2[k] == sorted[k] && s2[l] == sorted[l - 1]);
            assert(p2[k] == p[k] && p2[l] == p[l - 1]);
        }
    }
}

impl Event {
    /// The events sorted by month and day, as the listing shows them; events
    /// of the same day keep their order.
    pub fn sort_by_day(events: Vec<Event>) -> (r: Vec<Event>)
        ensures
            exists|p: Seq<int>| sorted_by_day_from(events@, r@, p),
    {
        let ghost orig = events@;
        let mut rest = events;
        let mut sorted: Vec<Event> = Vec::new();
        let ghost mut p: Seq<int> = Seq::empty();
        let n = rest.len();
        let mut i: usize = 0;
        while rest.len() > 0
            invariant
                n == orig.len(),
                0 <= i <= n,
                rest@ == orig.skip(i as int),
                sorted@.len() == i,
                p.len() == i,
                forall|k: int| 0 <= k < i ==> 0 <= #[trigger] p[k] < i && sorted@[k] == orig[p[k]],
                forall|k: int, l: int| 0 <= k < l < i ==> #[trigger] p[k] != #[trigger] p[l],
                forall|k: int, l: int|
                    0 <= k < l < i ==> day_le(#[trigger] sorted@[k].date, #[trigger] sorted@[l].date),
                forall|k: int, l: int|
                    0 <= k < l < i && same_day(#[trigger] sorted@[k].date, #[trigger] sorted@[l].date)
                        ==> p[k] < p[l],
            decreases rest@.len(),
        {
            let e = rest.remove(0);
            assert(rest@ =~= orig.skip(i + 1));
            assert(e == orig[i as int]);
            let mut j: usize = sorted.len();
            while j > 0 && day_after(&sorted[j - 1].date, &e.date)
                invariant
                    0 <= j <= sorted@.len(),
                    forall|k: int| j <= k < sorted@.len() ==> !day_le(#[trigger] sorted@[k].date, e.date),
                decreases j,
            {
                j = j - 1;
            }
            proof {
                lemma_insert_places(orig, sorted@, p, i as int, j as int);
                lemma_insert_order(sorted@, e, j as int);
                lemma_insert_stable(sorted@, p, e, i as int, j as int);
            }
            sorted.insert(j, e);
            proof {
                p = p.insert(j as int, i as int);
            }
            i = i + 1;
        }
        assert(sorted_by_day_from(orig, sorted@, p));
        sorted
    }
}

/// An event as the exported calendar holds it.
#[derive(Debug)]
pub enum CalendarEntry {
    /// A birthday that comes back every year, from `start`, with the
    /// contact infos of the person.
    Birthday { summary: String, start: String, contact_info: Vec<ContactInfo> },
    /// A reminder to do by `due`.
    Todo { summary: String, comment: String, due: String },
}

/// Whether the calendar export keeps the event: birthdays when they or
/// all events are asked for, reminders likewise.
pub open spec fn exported(e: Event, birthdays: bool, reminders: bool, all: bool) -> bool {
    match e.details {
        EventType::Person(_) => birthdays || all,
        EventType::Reminder(_) => reminders || all,
    }
}

/// The events that the calendar export keeps, in order.
pub open spec fn exported_events(s: Seq<Event>, birthdays: bool, reminders: bool, all: bool) -> Seq<
    Event,
>
    decreases s.len(),
{
    if s.len() == 0 {
        Seq::empty()
    } else if exported(s.last(), birthdays, reminders, all) {
        exported_events(s.drop_last(), birthdays, reminders, all).push(s.last())
    } else {
        exported_events(s.drop_last(), birthdays, reminders, all)
    }
}

/// Whether `c` is the calendar entry of event `e`: a birthday titled with
/// the person's name, starting on the event's date; a reminder titled with
/// its name, commented with its description (`[Empty]` without one), due at
/// nine on the event's date.
pub open spec fn entry_of(c: CalendarEntry, e: Event) -> bool {
    match e.details {
        EventType::Person(p) => match c {
            CalendarEntry::Birthday { summary, start, contact_info } => {
                &&& summary@ == p.name@ + "'s birthday"@
                &&& start@ == compact_date_text(e.date@.0, e.date@.1, e.date@.2)
                &&& contact_info == p.contact_info
            },
            CalendarEntry::Todo { .. } => false,
        },
        EventType::Reminder(r) => match c {
            CalendarEntry::Todo { summary, comment, due } => {
                &&& summary == r.name
                &&& comment@ == match r.description {
                    Some(d) => d@,
                    None => "[Empty]"@,
                }
                &&& due@ == compact_date_text(e.date@.0, e.date@.1, e.date@.2) + "T090000"@
            },
            CalendarEntry::Birthday { .. } => false,
        },
    }
}

impl Event {
    /// The calendar entries of the events that the export keeps, in order:
    /// birthdays when `birthdays` or `all` is set, reminders when
    /// `reminders` or `all` is set.
    pub fn calendar_entries(events: Vec<Event>, birthdays: bool, reminders: bool, all: bool) -> (r: Vec<
        CalendarEntry,
    >)
        ensures
            r@.len() == exported_events(events@, birthdays, reminders, all).len(),
            forall|i: int|
                0 <= i < r@.len() ==> entry_of(
                    #[trigger] r@[i],
                    exported_events(events@, birthdays, reminders, all)[i],
                ),
    {
        let ghost orig = events@;
        let mut rest = events;
        let mut entries: Vec<CalendarEntry> = Vec::new();
        let n = rest.len();
        let mut i: usize = 0;
        while rest.len() > 0
            invariant
                n == orig.len(),
                0 <= i <= n,
                rest@ == orig.skip(i as int),
                entries@.len() == exported_events(orig.take(i as int), birthdays, reminders, all).len(),
                forall|k: int|
                    0 <= k < entries@.len() ==> entry_of(
                        #[trigger] entries@[k],
                        exported_events(orig.take(i as int), birthdays, reminders, all)[k],
                    ),
            decreases rest@.len(),
        {
            let e = rest.remove(0);
            assert(rest@ =~= orig.skip(i + 1));
            assert(orig.take(i + 1).drop_last() =~= orig.take(i as int));
            assert(orig.take(i + 1).last() == orig[i as int]);
            let ghost ev = e;
            let ghost before = entries@;
            let date = e.date;
            match e.details {
                EventType::Person(person) => {
                    if birthdays || all {
                        let mut summary = String::new();
                        push_str(&mut summary, person.name.as_str());
                        push_str(&mut summary, "'s birthday");
                        let start = date.to_compact_string();
                        entries.push(
                            CalendarEntry::Birthday {
                                summary,
                                start,
                                contact_info: person.contact_info,
                            },
                        );
                        assert(entries@ =~= before.push(entries@.last()));
                        assert(entry_of(entries@.last(), ev));
                    }
                },
                EventType::Reminder(reminder) => {
                    if reminders || all {
                        let comment = match reminder.description {
                            Some(d) => d,
                            None => string_of("[Empty]"),
                        };
                        let mut due = date.to_compact_string();
                        push_str(&mut due, "T090000");
                        entries.push(CalendarEntry::Todo { summary: reminder.name, comment, due });
                        assert(entries@ =~= before.push(entries@.last()));
                        assert(entry_of(entries@.last(), ev));
                    }
                },
            }
            i = i + 1;
        }
        assert(orig.take(n as int) =~= orig);
        entries
    }
}

} // verus!
