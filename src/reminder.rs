use vstd::prelude::*;
use crate::json::{
    fields_view, find_key, lemma_key_index, lemma_key_index_at, lemma_object_view, lookup, FieldsV, Json, JsonNumber,
    JsonV, NumberV,
};

verus! {

/// A user-defined reminder, one-shot (`interval` is `"specific"`) or recurring.
#[derive(Debug, Clone)]
pub struct Reminder {
    pub id: String,
    pub name: String,
    pub interval: String,
    pub interval_value: u32,
    pub specific_date: Option<String>,
    pub specific_time: Option<String>,
    pub color: String,
    pub created_at: String,
    pub last_notified: Option<String>,
    pub active: bool,
    pub next_execution: Option<String>,
}

/// The value of a reminder, its texts as character sequences.
pub struct ReminderV {
    pub id: Seq<char>,
    pub name: Seq<char>,
    pub interval: Seq<char>,
    pub interval_value: u32,
    pub specific_date: Option<Seq<char>>,
    pub specific_time: Option<Seq<char>>,
    pub color: Seq<char>,
    pub created_at: Seq<char>,
    pub last_notified: Option<Seq<char>>,
    pub active: bool,
    pub next_execution: Option<Seq<char>>,
}

pub open spec fn opt_view(o: Option<String>) -> Option<Seq<char>> {
    match o {
        Some(s) => Some(s@),
        None => None,
    }
}

impl View for Reminder {
    type V = ReminderV;

    open spec fn view(&self) -> ReminderV {
        ReminderV {
            id: self.id@,
            name: self.name@,
            interval: self.interval@,
            interval_value: self.interval_value,
            specific_date: opt_view(self.specific_date),
            specific_time: opt_view(self.specific_time),
            color: self.color@,
            created_at: self.created_at@,
            last_notified: opt_view(self.last_notified),
            active: self.active,
            next_execution: opt_view(self.next_execution),
        }
    }
}

pub fn clone_opt(o: &Option<String>) -> (r: Option<String>)
    ensures
        opt_view(r) == opt_view(*o),
{
    match o {
        Some(s) => Some(s.clone()),
        None => None,
    }
}

impl Reminder {
    /// A reminder equal in value to this one.
    pub fn duplicate(&self) -> (r: Reminder)
        ensures
            r@ == self@,
    {
        Reminder {
            id: self.id.clone(),
            name: self.name.clone(),
            interval: self.interval.clone(),
            interval_value: self.interval_value,
            specific_date: clone_opt(&self.specific_date),
            specific_time: clone_opt(&self.specific_time),
            color: self.color.clone(),
            created_at: self.created_at.clone(),
            last_notified: clone_opt(&self.last_notified),
            active: self.active,
            next_execution: clone_opt(&self.next_execution),
        }
    }
}

/// A required text member.
pub open spec fn text_member(f: FieldsV, key: Seq<char>) -> Option<Seq<char>> {
    match lookup(f, key) {
        Some(JsonV::Str(s)) => Some(s),
        _ => None,
    }
}

/// An optional text member: absent and `null` both read as no text.
pub open spec fn opt_text_member(f: FieldsV, key: Seq<char>) -> Option<Option<Seq<char>>> {
    match lookup(f, key) {
        None => Some(None),
        Some(JsonV::Null) => Some(None),
        Some(JsonV::Str(s)) => Some(Some(s)),
        _ => None,
    }
}

/// A required member holding an integer that fits in a `u32`.
pub open spec fn u32_member(f: FieldsV, key: Seq<char>) -> Option<u32> {
    match lookup(f, key) {
        Some(JsonV::Number(NumberV::PosInt(n))) => if n <= u32::MAX {
            Some(n as u32)
        } else {
            None
        },
        _ => None,
    }
}

/// A required boolean member.
pub open spec fn bool_member(f: FieldsV, key: Seq<char>) -> Option<bool> {
    match lookup(f, key) {
        Some(JsonV::Bool(b)) => Some(b),
        _ => None,
    }
}

/// The reminder that a JSON tree describes, with the camelCase keys of the stored format;
/// members with other keys are ignored.
pub open spec fn decode_reminder(v: JsonV) -> Option<ReminderV> {
    match v {
        JsonV::Object(f) => {
            if text_member(f, "id"@) is Some && text_member(f, "name"@) is Some
                && text_member(f, "interval"@) is Some && u32_member(f, "intervalValue"@) is Some
                && opt_text_member(f, "specificDate"@) is Some && opt_text_member(
                f,
                "specificTime"@,
            ) is Some && text_member(f, "color"@) is Some && text_member(f, "createdAt"@) is Some
                && opt_text_member(f, "lastNotified"@) is Some && bool_member(f, "active"@) is Some
                && opt_text_member(f, "nextExecution"@) is Some {
                Some(
                    ReminderV {
                        id: text_member(f, "id"@).unwrap(),
                        name: text_member(f, "name"@).unwrap(),
                        interval: text_member(f, "interval"@).unwrap(),
                        interval_value: u32_member(f, "intervalValue"@).unwrap(),
                        specific_date: opt_text_member(f, "specificDate"@).unwrap(),
                        specific_time: opt_text_member(f, "specificTime"@).unwrap(),
                        color: text_member(f, "color"@).unwrap(),
                        created_at: text_member(f, "createdAt"@).unwrap(),
                        last_notified: opt_text_member(f, "lastNotified"@).unwrap(),
                        active: bool_member(f, "active"@).unwrap(),
                        next_execution: opt_text_member(f, "nextExecution"@).unwrap(),
                    },
                )
            } else {
                None
            }
        },
        _ => None,
    }
}

pub open spec fn opt_text_value(o: Option<Seq<char>>) -> JsonV {
    match o {
        Some(s) => JsonV::Str(s),
        None => JsonV::Null,
    }
}

/// The JSON tree a reminder is stored as: every field, an absent text written as `null`.
pub open spec fn encode_reminder(r: ReminderV) -> JsonV {
    JsonV::Object(
        seq![
            ("id"@, JsonV::Str(r.id)),
            ("name"@, JsonV::Str(r.name)),
            ("interval"@, JsonV::Str(r.interval)),
            ("intervalValue"@, JsonV::Number(NumberV::PosInt(r.interval_value as u64))),
            ("specificDate"@, opt_text_value(r.specific_date)),
            ("specificTime"@, opt_text_value(r.specific_time)),
            ("color"@, JsonV::Str(r.color)),
            ("createdAt"@, JsonV::Str(r.created_at)),
            ("lastNotified"@, opt_text_value(r.last_notified)),
            ("active"@, JsonV::Bool(r.active)),
            ("nextExecution"@, opt_text_value(r.next_execution)),
        ],
    )
}

/// A stored reminder reads back as the reminder that was written.
pub proof fn lemma_reminder_round_trip(r: ReminderV)
    ensures
        decode_reminder(encode_reminder(r)) == Some(r),
{
    reveal_strlit("id");
    reveal_strlit("name");
    reveal_strlit("interval");
    reveal_strlit("intervalValue");
    reveal_strlit("specificDate");
    reveal_strlit("specificTime");
    reveal_strlit("color");
    reveal_strlit("createdAt");
    reveal_strlit("lastNotified");
    reveal_strlit("active");
    reveal_strlit("nextExecution");
    let f = encode_reminder(r)->Object_0;
    assert(f[0].0 == "id"@);
    assert(f[1].0 == "name"@);
    assert(f[2].0 == "interval"@);
    assert(f[3].0 == "intervalValue"@);
    assert(f[4].0 == "specificDate"@);
    assert(f[5].0 == "specificTime"@);
    assert(f[6].0 == "color"@);
    assert(f[7].0 == "createdAt"@);
    assert(f[8].0 == "lastNotified"@);
    assert(f[9].0 == "active"@);
    assert(f[10].0 == "nextExecution"@);
    assert("id"@.len() == 2);
    assert("name"@.len() == 4);
    assert("interval"@.len() == 8);
    assert("intervalValue"@.len() == 13);
    assert("specificDate"@.len() == 12);
    assert("specificTime"@.len() == 12);
    assert("color"@.len() == 5);
    assert("createdAt"@.len() == 9);
    assert("lastNotified"@.len() == 12);
    assert("active"@.len() == 6);
    assert("nextExecution"@.len() == 13);
    assert("specificTime"@[8] != "specificDate"@[8]);
    assert("lastNotified"@[0] != "specificDate"@[0]);
    assert("lastNotified"@[0] != "specificTime"@[0]);
    assert("nextExecution"@[0] != "intervalValue"@[0]);
    lemma_key_index_at(f, "id"@, 0);
    lemma_key_index_at(f, "name"@, 1);
    lemma_key_index_at(f, "interval"@, 2);
    lemma_key_index_at(f, "intervalValue"@, 3);
    lemma_key_index_at(f, "specificDate"@, 4);
    lemma_key_index_at(f, "specificTime"@, 5);
    lemma_key_index_at(f, "color"@, 6);
    lemma_key_index_at(f, "createdAt"@, 7);
    lemma_key_index_at(f, "lastNotified"@, 8);
    lemma_key_index_at(f, "active"@, 9);
    lemma_key_index_at(f, "nextExecution"@, 10);
}

pub fn text_field(fields: &Vec<(String, Json)>, key: &str) -> (r: Option<String>)
    ensures
        opt_view(r) == text_member(fields_view(fields@), key@),
{
    proof {
        lemma_key_index(fields_view(fields@), key@);
    }
    match find_key(fields, key) {
        Some(i) => match &fields[i].1 {
            Json::Str(s) => Some(s.clone()),
            _ => None,
        },
        None => None,
    }
}

pub fn opt_text_field(fields: &Vec<(String, Json)>, key: &str) -> (r: Option<Option<String>>)
    ensures
        (match r {
            Some(o) => opt_text_member(fields_view(fields@), key@) == Some(opt_view(o)),
            None => opt_text_member(fields_view(fields@), key@) is None,
        }),
{
    proof {
        lemma_key_index(fields_view(fields@), key@);
    }
    match find_key(fields, key) {
        Some(i) => match &fields[i].1 {
            Json::Null => Some(None),
            Json::Str(s) => Some(Some(s.clone())),
            _ => None,
        },
        None => Some(None),
    }
}

pub fn u32_field(fields: &Vec<(String, Json)>, key: &str) -> (r: Option<u32>)
    ensures
        r == u32_member(fields_view(fields@), key@),
{
    proof {
        lemma_key_index(fields_view(fields@), key@);
    }
    match find_key(fields, key) {
        Some(i) => match &fields[i].1 {
            Json::Number(JsonNumber::PosInt(n)) => if *n <= u32::MAX as u64 {
                Some(*n as u32)
            } else {
                None
            },
            _ => None,
        },
        None => None,
    }
}

pub fn bool_field(fields: &Vec<(String, Json)>, key: &str) -> (r: Option<bool>)
    ensures
        r == bool_member(fields_view(fields@), key@),
{
    proof {
        lemma_key_index(fields_view(fields@), key@);
    }
    match find_key(fields, key) {
        Some(i) => match &fields[i].1 {
            Json::Bool(b) => Some(*b),
            _ => None,
        },
        None => None,
    }
}

/// Reads a reminder from its JSON tree.
pub fn reminder_from_json(v: &Json) -> (r: Option<Reminder>)
    ensures
        r matches Some(x) ==> decode_reminder(v@) == Some(x@),
        r is None ==> decode_reminder(v@) is None,
{
    match v {
        Json::Object(f) => {
            proof {
                lemma_object_view(*f);
            }
            let id = text_field(f, "id");
            let name = text_field(f, "name");
            let interval = text_field(f, "interval");
            let interval_value = u32_field(f, "intervalValue");
            let specific_date = opt_text_field(f, "specificDate");
            let specific_time = opt_text_field(f, "specificTime");
            let color = text_field(f, "color");
            let created_at = text_field(f, "createdAt");
            let last_notified = opt_text_field(f, "lastNotified");
            let active = bool_field(f, "active");
            let next_execution = opt_text_field(f, "nextExecution");
            match (id, name, interval, interval_value, specific_date, specific_time) {
                (Some(id), Some(name), Some(interval), Some(interval_value), Some(specific_date), Some(specific_time)) => {
                    match (color, created_at, last_notified, active, next_execution) {
                        (Some(color), Some(created_at), Some(last_notified), Some(active), Some(next_execution)) => {
                            Some(Reminder {
                                id,
                                name,
                                interval,
                                interval_value,
                                specific_date,
                                specific_time,
                                color,
                                created_at,
                                last_notified,
                                active,
                                next_execution,
                            })
                        },
                        _ => None,
                    }
                },
                _ => None,
            }
        },
        _ => None,
    }
}

fn text_json(s: &String) -> (r: Json)
    ensures
        r@ == JsonV::Str(s@),
{
    Json::Str(s.clone())
}

fn opt_text_json(o: &Option<String>) -> (r: Json)
    ensures
        r@ == opt_text_value(opt_view(*o)),
{
    match o {
        Some(s) => Json::Str(s.clone()),
        None => Json::Null,
    }
}

/// Writes a reminder as its JSON tree.
pub fn reminder_to_json(r: &Reminder) -> (j: Json)
    ensures
        j@ == encode_reminder(r@),
{
    let mut f: Vec<(String, Json)> = Vec::new();
    f.push(("id".to_owned(), text_json(&r.id)));
    f.push(("name".to_owned(), text_json(&r.name)));
    f.push(("interval".to_owned(), text_json(&r.interval)));
    f.push(("intervalValue".to_owned(), Json::Number(JsonNumber::PosInt(r.interval_value as u64))));
    f.push(("specificDate".to_owned(), opt_text_json(&r.specific_date)));
    f.push(("specificTime".to_owned(), opt_text_json(&r.specific_time)));
    f.push(("color".to_owned(), text_json(&r.color)));
    f.push(("createdAt".to_owned(), text_json(&r.created_at)));
    f.push(("lastNotified".to_owned(), opt_text_json(&r.last_notified)));
    f.push(("active".to_owned(), Json::Bool(r.active)));
    f.push(("nextExecution".to_owned(), opt_text_json(&r.next_execution)));
    proof {
        lemma_object_view(f);
        assert(fields_view(f@) =~= encode_reminder(r@)->Object_0);
    }
    Json::Object(f)
}

} // verus!
