use remind::commands::{
    add_reminder, delete_reminder, get_setting, load_reminders, load_settings, record_fire,
    record_next_execution, save_reminders,
    save_settings, update_reminder, update_reminder_last_notified, update_setting,
};
use remind::instant::Instant;
use remind::json::{Json, JsonNumber};
use remind::migrate::{
    backup_file_name, load_app_data, migrate_app_data, migrate_v1_to_v2, read_version, LoadPlan,
};
use remind::reminder::{reminder_from_json, reminder_to_json, Reminder};
use remind::store::{app_data_from_json, app_data_to_json, default_settings, AppData, MigrationError};
use remind::{default_version, CURRENT_DATA_VERSION};

fn s(t: &str) -> Json {
    Json::Str(t.to_string())
}

fn obj(members: Vec<(&str, Json)>) -> Json {
    Json::Object(members.into_iter().map(|(k, v)| (k.to_string(), v)).collect())
}

fn num(n: u64) -> Json {
    Json::Number(JsonNumber::PosInt(n))
}

fn member<'a>(j: &'a Json, key: &str) -> Option<&'a Json> {
    j.get(key)
}

fn v1_reminder(id: &str, active: Option<bool>) -> Json {
    let mut m = vec![
        ("id", s(id)),
        ("name", s("Drink water")),
        ("interval", s("minutes")),
        ("intervalValue", num(30)),
        ("specificDate", Json::Null),
        ("color", s("#00ff00")),
        ("createdAt", s("2024-01-01T00:00:00Z")),
    ];
    if let Some(a) = active {
        m.push(("active", Json::Bool(a)));
    }
    obj(m)
}

fn reminder(id: &str) -> Reminder {
    Reminder {
        id: id.to_string(),
        name: format!("name {}", id),
        interval: "days".to_string(),
        interval_value: 1,
        specific_date: None,
        specific_time: Some("09:00".to_string()),
        color: "red".to_string(),
        created_at: "2024-01-01T00:00:00Z".to_string(),
        last_notified: None,
        active: true,
        next_execution: None,
    }
}

fn ids(d: &AppData) -> Vec<String> {
    d.reminders.iter().map(|r| r.id.clone()).collect()
}

#[test]
fn default_data_is_current_and_empty() {
    let d = AppData::default();
    assert_eq!(d.version, 2);
    assert_eq!(default_version(), CURRENT_DATA_VERSION);
    assert!(d.reminders.is_empty());
    let keys: Vec<&str> = d.settings.iter().map(|(k, _)| k.as_str()).collect();
    assert_eq!(keys, vec!["autostartEnabled", "theme", "notificationSound", "language"]);
    assert_eq!(default_settings().len(), 4);
}

#[test]
fn reminder_json_round_trip() {
    let r = reminder("x");
    let j = reminder_to_json(&r);
    assert_eq!(member(&j, "intervalValue").and_then(|v| v.as_u64()), Some(1));
    assert!(matches!(member(&j, "lastNotified"), Some(Json::Null)));
    let back = reminder_from_json(&j).unwrap();
    assert_eq!(back.id, "x");
    assert_eq!(back.specific_time.as_deref(), Some("09:00"));
    assert_eq!(back.last_notified, None);
    assert!(back.active);
}

#[test]
fn reminder_decode_rejects_bad_members() {
    assert!(reminder_from_json(&v1_reminder("a", None)).is_none());
    assert!(reminder_from_json(&v1_reminder("a", Some(true))).is_some());
    let big = obj(vec![
        ("id", s("a")), ("name", s("n")), ("interval", s("days")), ("intervalValue", num(1u64 << 32)),
        ("color", s("c")), ("createdAt", s("t")), ("active", Json::Bool(true)),
    ]);
    assert!(reminder_from_json(&big).is_none());
    let wrong = obj(vec![
        ("id", s("a")), ("name", s("n")), ("interval", s("days")), ("intervalValue", num(1)),
        ("specificDate", Json::Bool(false)), ("color", s("c")), ("createdAt", s("t")), ("active", Json::Bool(true)),
    ]);
    assert!(reminder_from_json(&wrong).is_none());
}

#[test]
fn save_then_load_gives_same_data() {
    let mut d = AppData::default();
    d.reminders.push(reminder("a"));
    d.reminders.push(reminder("b"));
    let j = app_data_to_json(&d);
    let back = app_data_from_json(&j).unwrap();
    assert_eq!(back.version, 2);
    assert_eq!(ids(&back), vec!["a", "b"]);
    assert_eq!(back.settings.len(), 4);
    let again = app_data_to_json(&back);
    let back2 = app_data_from_json(&again).unwrap();
    assert_eq!(ids(&back2), ids(&back));
    match load_app_data(j) {
        LoadPlan::Ready(x) => assert_eq!(ids(&x), vec!["a", "b"]),
        _ => panic!("a current document loads as it is"),
    }
}

#[test]
fn v1_document_migrates_with_active_reminders() {
    let doc = obj(vec![("reminders", Json::Array(vec![v1_reminder("a", None), v1_reminder("b", Some(false))]))]);
    assert_eq!(read_version(&doc), 1);
    match load_app_data(doc) {
        LoadPlan::Migrated(d) => {
            assert_eq!(d.version, CURRENT_DATA_VERSION);
            assert!(d.reminders[0].active);
            assert!(!d.reminders[1].active);
            assert_eq!(d.reminders[0].last_notified, None);
            assert_eq!(d.settings.len(), 4);
        }
        _ => panic!("a first-format document migrates"),
    }
}

#[test]
fn migration_step_twice_equals_once() {
    let mut doc = obj(vec![
        ("reminders", Json::Array(vec![v1_reminder("a", None)])),
        ("settings", obj(vec![("language", s("de"))])),
    ]);
    migrate_v1_to_v2(&mut doc).unwrap();
    let once = app_data_to_json(&migrate_app_data(clone_json(&doc), 2).unwrap());
    migrate_v1_to_v2(&mut doc).unwrap();
    let twice = app_data_to_json(&migrate_app_data(clone_json(&doc), 2).unwrap());
    let a = app_data_from_json(&once).unwrap();
    let b = app_data_from_json(&twice).unwrap();
    assert_eq!(ids(&a), ids(&b));
    assert_eq!(a.settings.len(), b.settings.len());
    let settings = match member(&doc, "settings") {
        Some(Json::Object(m)) => m.iter().map(|(k, _)| k.clone()).collect::<Vec<_>>(),
        _ => panic!("settings stay an object"),
    };
    assert_eq!(settings, vec!["language", "autostartEnabled", "theme", "notificationSound"]);
    assert!(matches!(member(&doc, "settings").and_then(|m| m.get("language")), Some(Json::Str(l)) if l == "de"));
}

fn clone_json(j: &Json) -> Json {
    j.deep_clone()
}

#[test]
fn migration_step_refuses_non_object() {
    let mut doc = Json::Array(vec![]);
    assert_eq!(migrate_v1_to_v2(&mut doc), Err(MigrationError::InvalidStructure));
    assert!(matches!(migrate_app_data(Json::Null, 1), Err(MigrationError::InvalidStructure)));
}

#[test]
fn migration_from_unknown_version_fails() {
    let doc = obj(vec![("version", num(0)), ("reminders", Json::Array(vec![]))]);
    assert!(matches!(migrate_app_data(doc.deep_clone(), 0), Err(MigrationError::UnknownVersion(0))));
    assert!(matches!(load_app_data(doc), LoadPlan::Unusable));
}

#[test]
fn migration_of_malformed_document_fails() {
    let doc = obj(vec![("reminders", Json::Array(vec![s("not a reminder")]))]);
    assert!(matches!(migrate_app_data(doc.deep_clone(), 1), Err(MigrationError::Malformed)));
    assert!(matches!(load_app_data(doc), LoadPlan::Unusable));
}

#[test]
fn newer_document_is_set_aside() {
    let doc = obj(vec![("version", num(3)), ("reminders", Json::Array(vec![])), ("settings", obj(vec![]))]);
    assert!(matches!(load_app_data(doc), LoadPlan::TooNew(3)));
}

#[test]
fn versions_beyond_u32_are_too_new() {
    for v in [(1u64 << 32) + 1, (1u64 << 32) + 2, u64::MAX] {
        let doc = obj(vec![("version", num(v)), ("reminders", Json::Array(vec![])), ("settings", obj(vec![]))]);
        assert_eq!(read_version(&doc), v);
        assert!(matches!(load_app_data(doc), LoadPlan::TooNew(x) if x == v));
    }
}

#[test]
fn current_document_that_does_not_read_is_unusable() {
    let doc = obj(vec![("version", num(2)), ("reminders", Json::Array(vec![]))]);
    assert!(matches!(load_app_data(doc), LoadPlan::Unusable));
}

#[test]
fn initial_data_matches_default() {
    let d = AppData::initial();
    assert_eq!(d.version, CURRENT_DATA_VERSION);
    assert!(d.reminders.is_empty());
    assert_eq!(d.settings.len(), AppData::default().settings.len());
}

#[test]
fn fire_record_keeps_other_fields() {
    let mut d = AppData::initial();
    add_reminder(&mut d, reminder("a"));
    let mut fired = reminder("a");
    fired.name = "stale copy".to_string();
    fired.last_notified = Some("2024-01-01T00:01:00+00:00".to_string());
    fired.next_execution = Some("2024-01-01T00:02:00+00:00".to_string());
    fired.active = false;
    assert!(record_fire(&mut d, &fired));
    assert_eq!(d.reminders[0].name, "name a");
    assert_eq!(d.reminders[0].last_notified.as_deref(), Some("2024-01-01T00:01:00+00:00"));
    assert_eq!(d.reminders[0].next_execution.as_deref(), Some("2024-01-01T00:02:00+00:00"));
    assert!(!d.reminders[0].active);
    assert!(!record_fire(&mut d, &reminder("b")));
    assert!(record_next_execution(&mut d, "a", Some("later".to_string())));
    assert_eq!(d.reminders[0].next_execution.as_deref(), Some("later"));
    assert_eq!(d.reminders[0].last_notified.as_deref(), Some("2024-01-01T00:01:00+00:00"));
    assert!(!record_next_execution(&mut d, "b", None));
}

#[test]
fn version_defaults_and_non_numbers() {
    assert_eq!(read_version(&obj(vec![])), 1);
    assert_eq!(read_version(&obj(vec![("version", s("2"))])), 1);
    assert_eq!(read_version(&Json::Null), 1);
    assert_eq!(read_version(&obj(vec![("version", num(2))])), 2);
}

#[test]
fn backup_name_has_utc_stamp() {
    let name = backup_file_name(Instant { secs: 1_704_078_245, nanos: 0 });
    assert_eq!(name.as_deref(), Some("app_data_backup_20240101_030405.json"));
    assert_eq!(backup_file_name(Instant { secs: i64::MAX / 2, nanos: 0 }), None);
}

#[test]
fn reminder_commands() {
    let mut d = AppData::default();
    add_reminder(&mut d, reminder("a"));
    add_reminder(&mut d, reminder("b"));
    add_reminder(&mut d, reminder("a"));
    assert_eq!(ids(&d), vec!["a", "b", "a"]);
    let mut changed = reminder("b");
    changed.name = "renamed".to_string();
    assert!(update_reminder(&mut d, changed));
    assert_eq!(d.reminders[1].name, "renamed");
    assert!(!update_reminder(&mut d, reminder("zzz")));
    assert!(update_reminder_last_notified(&mut d, "a", "2024-02-02T00:00:00Z".to_string()));
    assert_eq!(d.reminders[0].last_notified.as_deref(), Some("2024-02-02T00:00:00Z"));
    assert_eq!(d.reminders[2].last_notified, None);
    assert!(!update_reminder_last_notified(&mut d, "zzz", "t".to_string()));
    delete_reminder(&mut d, "a");
    assert_eq!(ids(&d), vec!["b"]);
    delete_reminder(&mut d, "missing");
    assert_eq!(ids(&d), vec!["b"]);
    save_reminders(&mut d, vec![reminder("c")]);
    assert_eq!(ids(&d), vec!["c"]);
    let rs = load_reminders(d);
    assert_eq!(rs.len(), 1);
}

#[test]
fn setting_commands() {
    let mut d = AppData::default();
    update_setting(&mut d, "theme", s("dark"));
    update_setting(&mut d, "fontSize", num(14));
    assert!(matches!(get_setting(&d, "theme"), Some(Json::Str(t)) if t == "dark"));
    assert!(matches!(get_setting(&d, "fontSize"), Some(Json::Number(JsonNumber::PosInt(14)))));
    assert!(get_setting(&d, "nothing").is_none());
    assert_eq!(d.settings.len(), 5);
    save_settings(&mut d, vec![("language".to_string(), s("de"))]);
    let settings = load_settings(d);
    assert_eq!(settings.len(), 1);
}
