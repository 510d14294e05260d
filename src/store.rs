use vstd::prelude::*;
use crate::json::{
    clone_fields, fields_view, find_key, items_view, lemma_array_view, lemma_key_index,
    lemma_object_view, lookup, FieldsV, Json, JsonNumber, JsonV, NumberV,
};
use crate::json::lemma_key_index_at;
use crate::reminder::{
    decode_reminder, encode_reminder, lemma_reminder_round_trip, reminder_from_json,
    reminder_to_json, Reminder, ReminderV,
};
use crate::CURRENT_DATA_VERSION;

verus! {

broadcast use vstd::std_specs::vec::group_vec_axioms;

/// The stored aggregate: format version, reminders in insertion order, and settings.
pub struct AppData {
    pub version: u32,
    pub reminders: Vec<Reminder>,
    pub settings: Vec<(String, Json)>,
}

pub struct AppDataV {
    pub version: u32,
    pub reminders: Seq<ReminderV>,
    pub settings: FieldsV,
}

pub open spec fn reminders_view(s: Seq<Reminder>) -> Seq<ReminderV> {
    Seq::new(s.len(), |i: int| s[i]@)
}

impl View for AppData {
    type V = AppDataV;

    open spec fn view(&self) -> AppDataV {
        AppDataV {
            version: self.version,
            reminders: reminders_view(self.reminders@),
            settings: fields_view(self.settings@),
        }
    }
}

/// Why a document could not be brought to the current format.
#[derive(Debug, PartialEq, Eq, Structural)]
pub enum MigrationError {
    /// The document is not a JSON object.
    InvalidStructure,
    /// No migration step starts at this version.
    UnknownVersion(u32),
    /// The migrated document does not describe the aggregate.
    Malformed,
}

/// The settings a new aggregate starts with.
pub open spec fn default_settings_v() -> FieldsV {
    seq![
        ("autostartEnabled"@, JsonV::Bool(false)),
        ("theme"@, JsonV::Null),
        ("notificationSound"@, JsonV::Bool(true)),
        ("language"@, JsonV::Str("en"@)),
    ]
}

pub open spec fn default_app_data() -> AppDataV {
    AppDataV {
        version: CURRENT_DATA_VERSION,
        reminders: Seq::empty(),
        settings: default_settings_v(),
    }
}

pub fn default_settings() -> (r: Vec<(String, Json)>)
    ensures
        fields_view(r@) == default_settings_v(),
{
    let mut m: Vec<(String, Json)> = Vec::new();
    m.push(("autostartEnabled".to_owned(), Json::Bool(false)));
    m.push(("theme".to_owned(), Json::Null));
    m.push(("notificationSound".to_owned(), Json::Bool(true)));
    m.push(("language".to_owned(), Json::Str("en".to_owned())));
    assert(fields_view(m@) =~= default_settings_v());
    m
}

impl AppData {
    /// The aggregate a new installation starts with: current version, no reminders, the
    /// default settings.
    pub fn initial() -> (r: AppData)
        ensures
            r@ == default_app_data(),
    {
        let r = AppData { version: CURRENT_DATA_VERSION, reminders: Vec::new(), settings: default_settings() };
        assert(r@.reminders =~= Seq::<ReminderV>::empty());
        r
    }
}

impl Default for AppData {
    fn default() -> (r: AppData)
        ensures
            r@ == default_app_data(),
    {
        AppData::initial()
    }
}

/// The reminders that a sequence of trees describes, where each of them describes one.
pub open spec fn decode_reminders(items: Seq<JsonV>) -> Option<Seq<ReminderV>> {
    if forall|i: int| 0 <= i < items.len() ==> (#[trigger] decode_reminder(items[i])) is Some {
        Some(Seq::new(items.len(), |i: int| decode_reminder(items[i]).unwrap()))
    } else {
        None
    }
}

/// The stated format version; the current one where none is stated.
pub open spec fn version_member(f: FieldsV) -> Option<u32> {
    match lookup(f, "version"@) {
        None => Some(CURRENT_DATA_VERSION),
        Some(JsonV::Number(NumberV::PosInt(n))) => if n <= u32::MAX {
            Some(n as u32)
        } else {
            None
        },
        _ => None,
    }
}

/// The aggregate that a JSON tree describes: an object with a `reminders` array of
/// reminders and a `settings` object; other members are ignored.
pub open spec fn decode_app_data(v: JsonV) -> Option<AppDataV> {
    match v {
        JsonV::Object(f) => match (version_member(f), lookup(f, "reminders"@), lookup(f, "settings"@)) {
            (Some(ver), Some(JsonV::Array(items)), Some(JsonV::Object(s))) => match decode_reminders(items) {
                Some(rs) => Some(AppDataV { version: ver, reminders: rs, settings: s }),
                None => None,
            },
            _ => None,
        },
        _ => None,
    }
}

/// The JSON tree the aggregate is stored as.
pub open spec fn encode_app_data(d: AppDataV) -> JsonV {
    JsonV::Object(
        seq![
            ("version"@, JsonV::Number(NumberV::PosInt(d.version as u64))),
            ("reminders"@, JsonV::Array(Seq::new(d.reminders.len(), |i: int| encode_reminder(d.reminders[i])))),
            ("settings"@, JsonV::Object(d.settings)),
        ],
    )
}

/// Saving an aggregate and reading the saved tree back gives the same aggregate, so
/// saving right after loading stores what was loaded.
pub proof fn lemma_app_data_round_trip(d: AppDataV)
    ensures
        decode_app_data(encode_app_data(d)) == Some(d),
{
    reveal_strlit("version");
    reveal_strlit("reminders");
    reveal_strlit("settings");
    let f = encode_app_data(d)->Object_0;
    assert("version"@.len() == 7);
    assert("reminders"@.len() == 9);
    assert("settings"@.len() == 8);
    assert(f[0].0 == "version"@);
    assert(f[1].0 == "reminders"@);
    assert(f[2].0 == "settings"@);
    lemma_key_index_at(f, "version"@, 0);
    lemma_key_index_at(f, "reminders"@, 1);
    lemma_key_index_at(f, "settings"@, 2);
    let items = f[1].1->Array_0;
    assert forall|i: int| 0 <= i < items.len() implies #[trigger] decode_reminder(items[i]) == Some(d.reminders[i]) by {
        lemma_reminder_round_trip(d.reminders[i]);
    }
    assert(decode_reminders(items).unwrap() =~= d.reminders);
}

/// Reads the aggregate from its JSON tree.
pub fn app_data_from_json(v: &Json) -> (r: Option<AppData>)
    ensures
        r matches Some(d) ==> decode_app_data(v@) == Some(d@),
        r is None ==> decode_app_data(v@) is None,
{
    let f = match v {
        Json::Object(f) => f,
        _ => return None,
    };
    proof {
        lemma_object_view(*f);
        lemma_key_index(fields_view(f@), "version"@);
        lemma_key_index(fields_view(f@), "reminders"@);
        lemma_key_index(fields_view(f@), "settings"@);
    }
    let version = match find_key(f, "version") {
        None => CURRENT_DATA_VERSION,
        Some(i) => match &f[i].1 {
            Json::Number(JsonNumber::PosInt(n)) => if *n <= u32::MAX as u64 {
                *n as u32
            } else {
                return None;
            },
            _ => return None,
        },
    };
    let items = match find_key(f, "reminders") {
        Some(i) => match &f[i].1 {
            Json::Array(items) => items,
            _ => return None,
        },
        None => return None,
    };
    let settings = match find_key(f, "settings") {
        Some(i) => match &f[i].1 {
            Json::Object(s) => s,
            _ => return None,
        },
        None => return None,
    };
    proof {
        lemma_array_view(*items);
        lemma_object_view(*settings);
    }
    let ghost iv = items_view(items@);
    let ghost outcome = match decode_reminders(iv) {
        Some(rs) => Some(AppDataV { version: version, reminders: rs, settings: fields_view(settings@) }),
        None => None,
    };
    assert(decode_app_data(v@) == outcome);
    let mut reminders: Vec<Reminder> = Vec::new();
    let mut i: usize = 0;
    while i < items.len()
        invariant
            iv == items_view(items@),
            decode_app_data(v@) == outcome,
            outcome == (match decode_reminders(iv) {
                Some(rs) => Some(AppDataV { version: version, reminders: rs, settings: fields_view(settings@) }),
                None => None,
            }),
            i <= items.len(),
            reminders@.len() == i,
            forall|j: int| 0 <= j < i ==> decode_reminder(iv[j]) == Some(#[trigger] reminders@[j]@),
        decreases items.len() - i,
    {
        match reminder_from_json(&items[i]) {
            Some(r) => reminders.push(r),
            None => {
                assert(decode_reminder(iv[i as int]) is None);
                assert(decode_reminders(iv) is None);
                return None;
            },
        }
        i = i + 1;
    }
    assert forall|j: int| 0 <= j < iv.len() implies (#[trigger] decode_reminder(iv[j])) is Some by {
        assert(decode_reminder(iv[j]) == Some(reminders@[j]@));
    }
    let d = AppData { version, reminders, settings: clone_fields(settings) };
    assert(d@.reminders =~= decode_reminders(iv).unwrap());
    Some(d)
}

/// Writes the aggregate as its JSON tree.
pub fn app_data_to_json(d: &AppData) -> (j: Json)
    ensures
        j@ == encode_app_data(d@),
{
    let mut items: Vec<Json> = Vec::new();
    let mut i: usize = 0;
    while i < d.reminders.len()
        invariant
            i <= d.reminders.len(),
            items@.len() == i,
            forall|j: int| 0 <= j < i ==> (#[trigger] items@[j])@ == encode_reminder(d.reminders@[j]@),
        decreases d.reminders.len() - i,
    {
        items.push(reminder_to_json(&d.reminders[i]));
        i = i + 1;
    }
    let mut f: Vec<(String, Json)> = Vec::new();
    f.push(("version".to_owned(), Json::Number(JsonNumber::PosInt(d.version as u64))));
    proof {
        lemma_array_view(items);
        assert(items_view(items@) =~= encode_app_data(d@)->Object_0[1].1->Array_0);
    }
    f.push(("reminders".to_owned(), Json::Array(items)));
    let settings = clone_fields(&d.settings);
    proof {
        lemma_object_view(settings);
    }
    f.push(("settings".to_owned(), Json::Object(settings)));
    proof {
        lemma_object_view(f);
        assert(fields_view(f@) =~= encode_app_data(d@)->Object_0);
    }
    Json::Object(f)
}

} // verus!
