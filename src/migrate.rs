use vstd::prelude::*;
use crate::json::{
    lemma_key_index_at, lemma_key_index_push, lemma_key_index_update, lemma_put,
    lemma_with_default_keys, lookup,
    ensure_key, fields_view, find_key, has_key, items_view, key_index, lemma_array_view,
    lemma_key_index, lemma_object_view, member, put, put_key, with_default, FieldsV, Json,
    JsonNumber, JsonV, NumberV,
};
use crate::reminder::decode_reminder;
use crate::store::{
    decode_reminders,
    app_data_from_json, decode_app_data, default_settings, default_settings_v, AppData, AppDataV,
    MigrationError,
};
use crate::instant::{compact_utc_stamp, format_compact_stamp, Instant};
use crate::CURRENT_DATA_VERSION;

verus! {

broadcast use vstd::std_specs::vec::group_vec_axioms;

/// A reminder object of the first format given the members the second one requires:
/// `active` (true) and `lastNotified` (null), each only where it is missing.
pub open spec fn migrate_reminder_v1(r: JsonV) -> JsonV {
    match r {
        JsonV::Object(f) => JsonV::Object(
            with_default(with_default(f, "active"@, JsonV::Bool(true)), "lastNotified"@, JsonV::Null),
        ),
        _ => r,
    }
}

/// A settings object given each default setting that it lacks.
pub open spec fn migrate_settings_v1(s: JsonV) -> JsonV {
    match s {
        JsonV::Object(f) => JsonV::Object(
            with_default(
                with_default(
                    with_default(
                        with_default(f, "autostartEnabled"@, JsonV::Bool(false)),
                        "theme"@,
                        JsonV::Null,
                    ),
                    "notificationSound"@,
                    JsonV::Bool(true),
                ),
                "language"@,
                JsonV::Str("en"@),
            ),
        ),
        _ => s,
    }
}

/// The members of a first-format document after its reminders are migrated: each
/// object in a `reminders` array is; an absent `reminders` becomes an empty array.
pub open spec fn migrate_reminders_member(f: FieldsV) -> FieldsV {
    if has_key(f, "reminders"@) {
        let i = key_index(f, "reminders"@);
        match f[i].1 {
            JsonV::Array(items) => f.update(
                i,
                (f[i].0, JsonV::Array(items.map_values(|x: JsonV| migrate_reminder_v1(x)))),
            ),
            _ => f,
        }
    } else {
        f.push(("reminders"@, JsonV::Array(Seq::empty())))
    }
}

/// The members after the settings are migrated: an absent `settings` becomes the
/// default settings.
pub open spec fn migrate_settings_member(f: FieldsV) -> FieldsV {
    if has_key(f, "settings"@) {
        let i = key_index(f, "settings"@);
        f.update(i, (f[i].0, migrate_settings_v1(f[i].1)))
    } else {
        f.push(("settings"@, JsonV::Object(default_settings_v())))
    }
}

/// The step from the first format to the second; nothing where the document is not an
/// object.
pub open spec fn migrate_v1_to_v2_doc(doc: JsonV) -> Option<JsonV> {
    match doc {
        JsonV::Object(f) => Some(JsonV::Object(migrate_settings_member(migrate_reminders_member(f)))),
        _ => None,
    }
}

/// The document with its `version` member set to the current version.
pub open spec fn stamp_version(doc: JsonV) -> JsonV {
    match doc {
        JsonV::Object(f) => JsonV::Object(
            put(f, "version"@, JsonV::Number(NumberV::PosInt(CURRENT_DATA_VERSION as u64))),
        ),
        _ => doc,
    }
}

/// The version a stored document states: a non-negative integer `version` member, and
/// the first format where there is none (or it is not such an integer).
pub open spec fn stored_version(doc: JsonV) -> u64 {
    match member(doc, "version"@) {
        Some(JsonV::Number(NumberV::PosInt(n))) => n,
        _ => 1,
    }
}

/// The document after the migration steps from `from` up to the current version, with
/// the current version stamped; nothing where a step has no migration or fails.
pub open spec fn migrated_doc(doc: JsonV, from: u32) -> Option<JsonV> {
    if from < 1 {
        None
    } else if from == 1 {
        match migrate_v1_to_v2_doc(doc) {
            Some(d) => Some(stamp_version(d)),
            None => None,
        }
    } else {
        Some(stamp_version(doc))
    }
}

fn migrate_reminder_item(r: Json) -> (out: Json)
    ensures
        out@ == migrate_reminder_v1(r@),
{
    match r {
        Json::Object(mut f) => {
            proof {
                lemma_object_view(f);
            }
            ensure_key(&mut f, "active", Json::Bool(true));
            ensure_key(&mut f, "lastNotified", Json::Null);
            proof {
                lemma_object_view(f);
            }
            Json::Object(f)
        },
        other => other,
    }
}

fn migrate_reminder_items(items: Vec<Json>) -> (out: Vec<Json>)
    ensures
        items_view(out@) == items_view(items@).map_values(|x: JsonV| migrate_reminder_v1(x)),
{
    let ghost orig = items@;
    let mut rest = items;
    let mut out: Vec<Json> = Vec::new();
    while rest.len() > 0
        invariant
            out@.len() + rest@.len() == orig.len(),
            rest@ == orig.subrange(out@.len() as int, orig.len() as int),
            forall|j: int| 0 <= j < out@.len() ==> (#[trigger] out@[j])@ == migrate_reminder_v1(orig[j]@),
        decreases rest@.len(),
    {
        let x = rest.remove(0);
        out.push(migrate_reminder_item(x));
    }
    assert(items_view(out@) =~= items_view(orig).map_values(|x: JsonV| migrate_reminder_v1(x)));
    out
}

fn migrate_settings_value(s: Json) -> (out: Json)
    ensures
        out@ == migrate_settings_v1(s@),
{
    match s {
        Json::Object(mut f) => {
            proof {
                lemma_object_view(f);
            }
            ensure_key(&mut f, "autostartEnabled", Json::Bool(false));
            ensure_key(&mut f, "theme", Json::Null);
            ensure_key(&mut f, "notificationSound", Json::Bool(true));
            ensure_key(&mut f, "language", Json::Str("en".to_owned()));
            proof {
                lemma_object_view(f);
            }
            Json::Object(f)
        },
        other => other,
    }
}

/// Migrates a document from the first format to the second, in place.
pub fn migrate_v1_to_v2(data: &mut Json) -> (r: Result<(), MigrationError>)
    ensures
        (match migrate_v1_to_v2_doc(old(data)@) {
            Some(v) => r is Ok && final(data)@ == v,
            None => r == Err::<(), MigrationError>(MigrationError::InvalidStructure) && final(data)@ == old(data)@,
        }),
{
    let mut taken = Json::Null;
    std::mem::swap(data, &mut taken);
    match taken {
        Json::Object(mut fields) => {
            proof {
                lemma_object_view(fields);
            }
            let ghost f0 = fields_view(fields@);
            proof {
                lemma_key_index(f0, "reminders"@);
            }
            match find_key(&fields, "reminders") {
                Some(i) => {
                    let (k, v) = fields.remove(i);
                    let nv = match v {
                        Json::Array(items) => {
                            proof {
                                lemma_array_view(items);
                            }
                            let out = migrate_reminder_items(items);
                            proof {
                                lemma_array_view(out);
                            }
                            Json::Array(out)
                        },
                        other => other,
                    };
                    fields.insert(i, (k, nv));
                },
                None => {
                    let empty: Vec<Json> = Vec::new();
                    proof {
                        lemma_array_view(empty);
                        assert(items_view(empty@) =~= Seq::<JsonV>::empty());
                    }
                    fields.push(("reminders".to_owned(), Json::Array(empty)));
                },
            }
            let ghost f1 = fields_view(fields@);
            assert(f1 =~= migrate_reminders_member(f0));
            proof {
                lemma_key_index(f1, "settings"@);
            }
            match find_key(&fields, "settings") {
                Some(i) => {
                    let (k, v) = fields.remove(i);
                    let nv = migrate_settings_value(v);
                    fields.insert(i, (k, nv));
                },
                None => {
                    let d = default_settings();
                    proof {
                        lemma_object_view(d);
                    }
                    fields.push(("settings".to_owned(), Json::Object(d)));
                },
            }
            assert(fields_view(fields@) =~= migrate_settings_member(f1));
            proof {
                lemma_object_view(fields);
            }
            *data = Json::Object(fields);
            Ok(())
        },
        other => {
            *data = other;
            Err(MigrationError::InvalidStructure)
        },
    }
}

/// The aggregate that the migration from version `from` yields, where it succeeds.
pub open spec fn migration_outcome(doc: JsonV, from: u32) -> Option<AppDataV> {
    match migrated_doc(doc, from) {
        Some(m) => decode_app_data(m),
        None => None,
    }
}

fn stamp_current_version(doc: &mut Json)
    ensures
        final(doc)@ == stamp_version(old(doc)@),
{
    match doc {
        Json::Object(f) => {
            proof {
                lemma_object_view(*f);
            }
            put_key(f, "version", Json::Number(JsonNumber::PosInt(CURRENT_DATA_VERSION as u64)));
            proof {
                lemma_object_view(*f);
            }
        },
        _ => {},
    }
}

/// Brings a document stored at version `from` to the current format and reads the
/// aggregate from it.
pub fn migrate_app_data(doc: Json, from_version: u32) -> (r: Result<AppData, MigrationError>)
    ensures
        from_version < 1 ==> r == Err::<AppData, MigrationError>(MigrationError::UnknownVersion(from_version)),
        from_version == 1 && migrate_v1_to_v2_doc(doc@) is None ==> r == Err::<AppData, MigrationError>(MigrationError::InvalidStructure),
        migrated_doc(doc@, from_version) is Some ==> (match migration_outcome(doc@, from_version) {
            Some(d) => (r matches Ok(x) && x@ == d),
            None => r == Err::<AppData, MigrationError>(MigrationError::Malformed),
        }),
{
    let mut data = doc;
    let mut current = from_version;
    while current < CURRENT_DATA_VERSION
        invariant
            1 <= from_version < CURRENT_DATA_VERSION ==> 1 <= current,
            current == from_version || current == CURRENT_DATA_VERSION,
            current == CURRENT_DATA_VERSION ==> (from_version == 1 || from_version >= CURRENT_DATA_VERSION),
            current == from_version ==> data@ == doc@,
            current == CURRENT_DATA_VERSION && from_version == 1 ==> migrate_v1_to_v2_doc(doc@) == Some(data@),
            current == CURRENT_DATA_VERSION && from_version != 1 ==> data@ == doc@,
        decreases CURRENT_DATA_VERSION - current,
    {
        if current == 1 {
            migrate_v1_to_v2(&mut data)?;
            current = 2;
        } else {
            return Err(MigrationError::UnknownVersion(current));
        }
    }
    stamp_current_version(&mut data);
    match app_data_from_json(&data) {
        Some(d) => Ok(d),
        None => Err(MigrationError::Malformed),
    }
}

/// The name of the file that keeps a document's text from before a migration at `now`:
/// `app_data_backup_` and the UTC stamp `YYYYMMDD_HHMMSS`, as JSON.
pub fn backup_file_name(now: Instant) -> (r: Option<String>)
    ensures
        (match compact_utc_stamp(now.secs, now.nanos) {
            Some(stamp) => (r matches Some(name) && name@ == "app_data_backup_"@ + stamp + ".json"@),
            None => r is None,
        }),
{
    match format_compact_stamp(now) {
        Some(stamp) => {
            let mut name = String::from_str("app_data_backup_");
            name.append(stamp.as_str());
            name.append(".json");
            Some(name)
        },
        None => None,
    }
}

/// What loading a stored document comes to.
pub enum LoadPlan {
    /// The document is in the current format: use it as it is.
    Ready(AppData),
    /// The document was migrated: back up the stored text as it was, then store this.
    Migrated(AppData),
    /// The document cannot be used: back up the stored text as it was and start from defaults.
    Unusable,
    /// The document comes from a newer format: start from defaults and leave it alone.
    TooNew(u64),
}

/// The version that a stored document states.
pub fn read_version(doc: &Json) -> (r: u64)
    ensures
        r == stored_version(doc@),
{
    match doc.get("version") {
        Some(v) => match v.as_u64() {
            Some(n) => n,
            None => 1,
        },
        None => 1,
    }
}

/// Decides how a parsed document is loaded: a current one is used where it reads as the
/// aggregate, an older one (or a current one that does not read) is migrated, a newer one
/// is set aside.
pub fn load_app_data(doc: Json) -> (r: LoadPlan)
    ensures
        ({
            let ver = stored_version(doc@);
            &&& ver > CURRENT_DATA_VERSION as u64 ==> (r matches LoadPlan::TooNew(v) && v == ver)
            &&& (ver == CURRENT_DATA_VERSION as u64 && decode_app_data(doc@) is Some) ==> (r matches LoadPlan::Ready(d)
                && decode_app_data(doc@) == Some(d@))
            &&& (ver < CURRENT_DATA_VERSION as u64 || (ver == CURRENT_DATA_VERSION as u64 && decode_app_data(doc@) is None)) ==> (
            match migration_outcome(doc@, ver as u32) {
                Some(m) => (r matches LoadPlan::Migrated(d) && d@ == m),
                None => r is Unusable,
            })
        }),
{
    let version = read_version(&doc);
    if version == CURRENT_DATA_VERSION as u64 {
        match app_data_from_json(&doc) {
            Some(d) => return LoadPlan::Ready(d),
            None => {},
        }
    } else if version > CURRENT_DATA_VERSION as u64 {
        return LoadPlan::TooNew(version);
    }
    match migrate_app_data(doc, version as u32) {
        Ok(d) => LoadPlan::Migrated(d),
        Err(_) => LoadPlan::Unusable,
    }
}

proof fn lemma_reminder_v1_idempotent(x: JsonV)
    ensures
        migrate_reminder_v1(migrate_reminder_v1(x)) == migrate_reminder_v1(x),
{
    if let JsonV::Object(f) = x {
        let g1 = with_default(f, "active"@, JsonV::Bool(true));
        lemma_with_default_keys(f, "active"@, JsonV::Bool(true), "active"@);
        lemma_with_default_keys(g1, "lastNotified"@, JsonV::Null, "active"@);
        lemma_with_default_keys(g1, "lastNotified"@, JsonV::Null, "lastNotified"@);
    }
}

proof fn lemma_settings_v1_idempotent(x: JsonV)
    ensures
        migrate_settings_v1(migrate_settings_v1(x)) == migrate_settings_v1(x),
{
    if let JsonV::Object(f) = x {
        let a = "autostartEnabled"@;
        let t = "theme"@;
        let n = "notificationSound"@;
        let l = "language"@;
        let h1 = with_default(f, a, JsonV::Bool(false));
        let h2 = with_default(h1, t, JsonV::Null);
        let h3 = with_default(h2, n, JsonV::Bool(true));
        lemma_with_default_keys(f, a, JsonV::Bool(false), a);
        lemma_with_default_keys(h1, t, JsonV::Null, a);
        lemma_with_default_keys(h1, t, JsonV::Null, t);
        lemma_with_default_keys(h2, n, JsonV::Bool(true), a);
        lemma_with_default_keys(h2, n, JsonV::Bool(true), t);
        lemma_with_default_keys(h2, n, JsonV::Bool(true), n);
        lemma_with_default_keys(h3, l, JsonV::Str("en"@), a);
        lemma_with_default_keys(h3, l, JsonV::Str("en"@), t);
        lemma_with_default_keys(h3, l, JsonV::Str("en"@), n);
        lemma_with_default_keys(h3, l, JsonV::Str("en"@), l);
    }
}

proof fn lemma_default_settings_complete()
    ensures
        migrate_settings_v1(JsonV::Object(default_settings_v())) == JsonV::Object(default_settings_v()),
{
    reveal_strlit("autostartEnabled");
    reveal_strlit("theme");
    reveal_strlit("notificationSound");
    reveal_strlit("language");
    let f = default_settings_v();
    assert("autostartEnabled"@.len() == 16);
    assert("theme"@.len() == 5);
    assert("notificationSound"@.len() == 17);
    assert("language"@.len() == 8);
    lemma_key_index_at(f, "autostartEnabled"@, 0);
    lemma_key_index_at(f, "theme"@, 1);
    lemma_key_index_at(f, "notificationSound"@, 2);
    lemma_key_index_at(f, "language"@, 3);
}

/// Running the step from the first format to the second on its own result changes
/// nothing: every member it adds is added only where missing.
pub proof fn lemma_migration_step_idempotent(doc: JsonV)
    ensures
        migrate_v1_to_v2_doc(doc) matches Some(d) ==> migrate_v1_to_v2_doc(d) == Some(d),
{
    if let JsonV::Object(f) = doc {
        let r = "reminders"@;
        let st = "settings"@;
        reveal_strlit("reminders");
        reveal_strlit("settings");
        assert(r.len() == 9 && st.len() == 8);
        lemma_key_index(f, r);
        let f1 = migrate_reminders_member(f);
        if has_key(f, r) {
            lemma_key_index_update(f, key_index(f, r), f1[key_index(f, r)].1, r);
            if let JsonV::Array(items) = f[key_index(f, r)].1 {
                assert(f1 == f.update(key_index(f, r), (f[key_index(f, r)].0, f1[key_index(f, r)].1)));
            }
        } else {
            lemma_key_index_push(f, (r, JsonV::Array(Seq::empty())), r);
        }
        let ri = key_index(f1, r);
        lemma_key_index(f1, r);
        lemma_key_index(f1, st);
        let f2 = migrate_settings_member(f1);
        if has_key(f1, st) {
            let si = key_index(f1, st);
            lemma_key_index_update(f1, si, migrate_settings_v1(f1[si].1), r);
            lemma_key_index_update(f1, si, migrate_settings_v1(f1[si].1), st);
            lemma_settings_v1_idempotent(f1[si].1);
        } else {
            lemma_key_index_push(f1, (st, JsonV::Object(default_settings_v())), r);
            lemma_key_index_push(f1, (st, JsonV::Object(default_settings_v())), st);
            lemma_default_settings_complete();
        }
        assert(key_index(f2, r) == ri);
        assert(f2[ri] == f1[ri]);
        let g1 = migrate_reminders_member(f2);
        if let JsonV::Array(items1) = f2[ri].1 {
            let items2 = g1[ri].1->Array_0;
            assert forall|j: int| 0 <= j < items1.len() implies items2[j] == items1[j] by {
                if has_key(f, r) {
                    let items0 = f[key_index(f, r)].1->Array_0;
                    lemma_reminder_v1_idempotent(items0[j]);
                }
            }
            assert(items2 =~= items1);
            assert(g1 =~= f2);
        } else {
            assert(g1 == f2);
        }
        assert(migrate_settings_member(f2) =~= f2);
    }
}

/// Loading a first-format document whose reminder `i` has no `active` member yields, where
/// the document loads at all, that reminder active, in an aggregate at the current version.
pub proof fn lemma_v1_reminders_become_active(doc: JsonV, i: int)
    requires
        stored_version(doc) == 1,
        member(doc, "reminders"@) matches Some(JsonV::Array(items)) && 0 <= i < items.len()
            && (items[i] matches JsonV::Object(g) && !has_key(g, "active"@)),
    ensures
        migration_outcome(doc, 1) matches Some(d) ==> (d.version == CURRENT_DATA_VERSION
            && d.reminders[i].active),
{
    let f = doc->Object_0;
    let r = "reminders"@;
    let st = "settings"@;
    let v = "version"@;
    reveal_strlit("reminders");
    reveal_strlit("settings");
    reveal_strlit("version");
    assert(r.len() == 9 && st.len() == 8 && v.len() == 7);
    lemma_key_index(f, r);
    let ri = key_index(f, r);
    let items = f[ri].1->Array_0;
    let f1 = migrate_reminders_member(f);
    lemma_key_index_update(f, ri, f1[ri].1, r);
    assert(f1 == f.update(ri, (f[ri].0, f1[ri].1)));
    lemma_key_index(f1, st);
    let f2 = migrate_settings_member(f1);
    if has_key(f1, st) {
        let si = key_index(f1, st);
        lemma_key_index_update(f1, si, migrate_settings_v1(f1[si].1), r);
    } else {
        lemma_key_index_push(f1, (st, JsonV::Object(default_settings_v())), r);
    }
    assert(key_index(f2, r) == ri && f2[ri] == f1[ri]);
    let two = JsonV::Number(NumberV::PosInt(CURRENT_DATA_VERSION as u64));
    lemma_put(f2, v, two, r);
    let f3 = put(f2, v, two);
    assert(lookup(f3, r) == Some(f1[ri].1));
    let items1 = f1[ri].1->Array_0;
    assert(items1[i] == migrate_reminder_v1(items[i]));
    let g = items[i]->Object_0;
    let a = "active"@;
    let g1 = with_default(g, a, JsonV::Bool(true));
    lemma_with_default_keys(g, a, JsonV::Bool(true), a);
    lemma_with_default_keys(g1, "lastNotified"@, JsonV::Null, a);
    if let Some(d) = migration_outcome(doc, 1) {
        assert(decode_reminder(items1[i]) is Some);
        assert(d.reminders == decode_reminders(items1).unwrap());
    }
}

} // verus!
