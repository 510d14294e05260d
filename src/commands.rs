use vstd::prelude::*;
use crate::json::{fields_view, find_key, lemma_key_index, lookup, put, put_key, Json};
use crate::reminder::{clone_opt, opt_view, Reminder, ReminderV};
use crate::store::{reminders_view, AppData, AppDataV};
use crate::json::text_eq;

verus! {

broadcast use vstd::std_specs::vec::group_vec_axioms;

/// Position of the first reminder with id `id`, or -1 where there is none.
pub open spec fn id_index(s: Seq<ReminderV>, id: Seq<char>) -> int
    decreases s.len(),
{
    if s.len() == 0 {
        -1
    } else if s[0].id == id {
        0
    } else {
        let r = id_index(s.drop_first(), id);
        if r < 0 {
            -1
        } else {
            r + 1
        }
    }
}

pub proof fn lemma_id_index(s: Seq<ReminderV>, id: Seq<char>)
    ensures
        -1 <= id_index(s, id) < s.len(),
        id_index(s, id) >= 0 ==> s[id_index(s, id)].id == id,
        forall|j: int| 0 <= j < s.len() && j < id_index(s, id) ==> s[j].id != id,
        id_index(s, id) < 0 ==> forall|j: int| 0 <= j < s.len() ==> s[j].id != id,
    decreases s.len(),
{
    if s.len() > 0 && s[0].id != id {
        lemma_id_index(s.drop_first(), id);
        assert forall|j: int| 0 < j < s.len() implies s[j].id == s.drop_first()[j - 1].id by {}
    }
}

/// The reminders with the first one whose id is `id` replaced by `r`; unchanged where
/// none has that id.
pub open spec fn replace_by_id(s: Seq<ReminderV>, id: Seq<char>, r: ReminderV) -> Seq<ReminderV> {
    if id_index(s, id) >= 0 {
        s.update(id_index(s, id), r)
    } else {
        s
    }
}

/// The reminders without those whose id is `id`.
pub open spec fn without_id(s: Seq<ReminderV>, id: Seq<char>) -> Seq<ReminderV> {
    s.filter(|r: ReminderV| r.id != id)
}

/// Position of the first reminder with id `id`.
fn position_of(reminders: &Vec<Reminder>, id: &str) -> (r: Option<usize>)
    ensures
        r matches Some(i) ==> i < reminders@.len() && i as int == id_index(reminders_view(reminders@), id@),
        r is None ==> id_index(reminders_view(reminders@), id@) == -1,
{
    let ghost s = reminders_view(reminders@);
    proof {
        lemma_id_index(s, id@);
    }
    let mut i: usize = 0;
    while i < reminders.len()
        invariant
            s == reminders_view(reminders@),
            i <= reminders@.len(),
            forall|j: int| 0 <= j < i ==> s[j].id != id@,
            -1 <= id_index(s, id@) < s.len(),
            id_index(s, id@) >= 0 ==> s[id_index(s, id@)].id == id@,
            forall|j: int| 0 <= j < s.len() && j < id_index(s, id@) ==> s[j].id != id@,
            id_index(s, id@) < 0 ==> forall|j: int| 0 <= j < s.len() ==> s[j].id != id@,
        decreases reminders.len() - i,
    {
        if text_eq(reminders[i].id.as_str(), id) {
            assert(s[i as int].id == id@);
            return Some(i);
        }
        i = i + 1;
    }
    None
}

/// Replaces the stored reminders.
pub fn save_reminders(data: &mut AppData, reminders: Vec<Reminder>)
    ensures
        final(data)@ == (AppDataV { reminders: reminders_view(reminders@), ..old(data)@ }),
{
    data.reminders = reminders;
}

/// The stored reminders.
pub fn load_reminders(data: AppData) -> (r: Vec<Reminder>)
    ensures
        reminders_view(r@) == data@.reminders,
{
    data.reminders
}

/// Removes every reminder whose id is `reminder_id`.
pub fn delete_reminder(data: &mut AppData, reminder_id: &str)
    ensures
        final(data)@ == (AppDataV { reminders: without_id(old(data)@.reminders, reminder_id@), ..old(data)@ }),
{
    let ghost all = reminders_view(data.reminders@);
    let mut rest: Vec<Reminder> = Vec::new();
    std::mem::swap(&mut rest, &mut data.reminders);
    let ghost orig = rest@;
    assert(orig.len() == rest.len());
    let mut kept: Vec<Reminder> = Vec::new();
    let mut n: usize = 0;
    while rest.len() > 0
        invariant
            all == reminders_view(orig),
            n + rest@.len() == orig.len(),
            orig.len() <= usize::MAX,
            rest@ == orig.subrange(n as int, orig.len() as int),
            reminders_view(kept@) == without_id(all.subrange(0, n as int), reminder_id@),
        decreases rest@.len(),
    {
        let x = rest.remove(0);
        assert(all.subrange(0, n + 1).drop_last() =~= all.subrange(0, n as int));
        assert(all[n as int] == x@);
        reveal(Seq::filter);
        let ghost before = kept@;
        if !text_eq(x.id.as_str(), reminder_id) {
            kept.push(x);
            assert(reminders_view(kept@) =~= reminders_view(before).push(all[n as int]));
        }
        n = n + 1;
    }
    assert(all.subrange(0, n as int) =~= all);
    data.reminders = kept;
}

/// Appends a reminder.
pub fn add_reminder(data: &mut AppData, reminder: Reminder)
    ensures
        final(data)@ == (AppDataV { reminders: old(data)@.reminders.push(reminder@), ..old(data)@ }),
{
    let ghost before = data.reminders@;
    data.reminders.push(reminder);
    assert(reminders_view(data.reminders@) =~= reminders_view(before).push(reminder@));
}

/// Replaces the first reminder that has the same id as `reminder`. Returns whether one
/// did, and so whether there is anything to store.
pub fn update_reminder(data: &mut AppData, reminder: Reminder) -> (r: bool)
    ensures
        r == (id_index(old(data)@.reminders, reminder@.id) >= 0),
        final(data)@ == (AppDataV { reminders: replace_by_id(old(data)@.reminders, reminder@.id, reminder@), ..old(data)@ }),
{
    match position_of(&data.reminders, reminder.id.as_str()) {
        Some(i) => {
            let ghost before = data.reminders@;
            let ghost rv = reminder@;
            let _ = data.reminders.remove(i);
            data.reminders.insert(i, reminder);
            assert(reminders_view(data.reminders@) =~= reminders_view(before).update(i as int, rv));
            true
        },
        None => false,
    }
}

/// Sets `last_notified` of the first reminder with id `reminder_id`. Returns whether one
/// has that id.
pub fn update_reminder_last_notified(data: &mut AppData, reminder_id: &str, timestamp: String) -> (r: bool)
    ensures
        r == (id_index(old(data)@.reminders, reminder_id@) >= 0),
        final(data)@ == (AppDataV {
            reminders: if r {
                let i = id_index(old(data)@.reminders, reminder_id@);
                old(data)@.reminders.update(i, ReminderV { last_notified: Some(timestamp@), ..old(data)@.reminders[i] })
            } else {
                old(data)@.reminders
            },
            ..old(data)@
        }),
{
    match position_of(&data.reminders, reminder_id) {
        Some(i) => {
            let ghost before = data.reminders@;
            let mut x = data.reminders.remove(i);
            x.last_notified = Some(timestamp);
            let ghost xv = x@;
            data.reminders.insert(i, x);
            assert(reminders_view(data.reminders@) =~= reminders_view(before).update(i as int, xv));
            true
        },
        None => false,
    }
}

/// Records what a fire changed in the first reminder with the id of `fired`: its
/// `last_notified`, `active` and `next_execution` are taken from `fired`, every other field
/// stays as stored. Returns whether a reminder has that id.
pub fn record_fire(data: &mut AppData, fired: &Reminder) -> (r: bool)
    ensures
        r == (id_index(old(data)@.reminders, fired@.id) >= 0),
        final(data)@ == (AppDataV {
            reminders: if r {
                let i = id_index(old(data)@.reminders, fired@.id);
                old(data)@.reminders.update(
                    i,
                    ReminderV {
                        last_notified: fired@.last_notified,
                        active: fired@.active,
                        next_execution: fired@.next_execution,
                        ..old(data)@.reminders[i]
                    },
                )
            } else {
                old(data)@.reminders
            },
            ..old(data)@
        }),
{
    match position_of(&data.reminders, fired.id.as_str()) {
        Some(i) => {
            let ghost before = data.reminders@;
            let mut x = data.reminders.remove(i);
            x.last_notified = clone_opt(&fired.last_notified);
            x.active = fired.active;
            x.next_execution = clone_opt(&fired.next_execution);
            let ghost xv = x@;
            data.reminders.insert(i, x);
            assert(reminders_view(data.reminders@) =~= reminders_view(before).update(i as int, xv));
            true
        },
        None => false,
    }
}

/// Records the next execution time of the first reminder with id `reminder_id`; every
/// other field stays as stored. Returns whether a reminder has that id.
pub fn record_next_execution(data: &mut AppData, reminder_id: &str, next_execution: Option<String>) -> (r: bool)
    ensures
        r == (id_index(old(data)@.reminders, reminder_id@) >= 0),
        final(data)@ == (AppDataV {
            reminders: if r {
                let i = id_index(old(data)@.reminders, reminder_id@);
                old(data)@.reminders.update(
                    i,
                    ReminderV { next_execution: opt_view(next_execution), ..old(data)@.reminders[i] },
                )
            } else {
                old(data)@.reminders
            },
            ..old(data)@
        }),
{
    match position_of(&data.reminders, reminder_id) {
        Some(i) => {
            let ghost before = data.reminders@;
            let mut x = data.reminders.remove(i);
            x.next_execution = next_execution;
            let ghost xv = x@;
            data.reminders.insert(i, x);
            assert(reminders_view(data.reminders@) =~= reminders_view(before).update(i as int, xv));
            true
        },
        None => false,
    }
}

/// Replaces the stored settings.
pub fn save_settings(data: &mut AppData, settings: Vec<(String, Json)>)
    ensures
        final(data)@ == (AppDataV { settings: fields_view(settings@), ..old(data)@ }),
{
    data.settings = settings;
}

/// The stored settings.
pub fn load_settings(data: AppData) -> (r: Vec<(String, Json)>)
    ensures
        fields_view(r@) == data@.settings,
{
    data.settings
}

/// Sets one setting, in place of an earlier value under the same key or as a new one.
pub fn update_setting(data: &mut AppData, key: &str, value: Json)
    ensures
        final(data)@ == (AppDataV { settings: put(old(data)@.settings, key@, value@), ..old(data)@ }),
{
    put_key(&mut data.settings, key, value);
}

/// The value of one setting.
pub fn get_setting(data: &AppData, key: &str) -> (r: Option<Json>)
    ensures
        r matches Some(v) ==> lookup(data@.settings, key@) == Some(v@),
        r is None ==> lookup(data@.settings, key@) is None,
{
    proof {
        lemma_key_index(fields_view(data.settings@), key@);
    }
    match find_key(&data.settings, key) {
        Some(i) => Some(data.settings[i].1.deep_clone()),
        None => None,
    }
}

} // verus!
