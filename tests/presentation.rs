use remind::json::Json;
use remind::notifications::{
    reminder_notification, send_notification, send_notification_with_settings,
    send_notification_with_sound, send_reminder_notification, test_notification_sound,
    test_notification_with_settings,
};
use remind::reminder::Reminder;
use remind::store::AppData;
use remind::tray::get_localized_text;
use remind::updater::update_info;

fn settings_with(key: &str, v: Json) -> AppData {
    let mut d = AppData::default();
    remind::commands::update_setting(&mut d, key, v);
    d
}

#[test]
fn sound_follows_settings() {
    let d = AppData::default();
    assert!(send_notification_with_settings(&d, "t".to_string(), "b".to_string()).play_sound);
    let off = settings_with("notificationSound", Json::Bool(false));
    let n = send_reminder_notification(&off, "t".to_string(), "b".to_string());
    assert!(!n.play_sound);
    assert_eq!(n.title, "t");
    let odd = settings_with("notificationSound", Json::Str("no".to_string()));
    assert!(test_notification_with_settings(&odd).play_sound);
    assert!(!test_notification_with_settings(&off).play_sound);
}

#[test]
fn notification_texts() {
    let r = Reminder {
        id: "1".to_string(),
        name: "Stretch".to_string(),
        interval: "hours".to_string(),
        interval_value: 1,
        specific_date: None,
        specific_time: None,
        color: "blue".to_string(),
        created_at: "2024-01-01T00:00:00Z".to_string(),
        last_notified: None,
        active: true,
        next_execution: None,
    };
    let n = reminder_notification(&AppData::default(), &r);
    assert_eq!(n.title, "ReMind");
    assert_eq!(n.body, "Reminder: Stretch");
    assert!(n.play_sound);
    let t = test_notification_sound();
    assert_eq!(t.title, "Test Benachrichtigung");
    assert!(t.play_sound);
    assert!(send_notification("a".to_string(), "b".to_string()).play_sound);
    assert!(!send_notification_with_sound("a".to_string(), "b".to_string(), false).play_sound);
}

#[test]
fn tray_labels_follow_language() {
    let en = AppData::default();
    assert_eq!(get_localized_text(&en.settings, "show"), "Show");
    assert_eq!(get_localized_text(&en.settings, "update"), "Check for Updates");
    assert_eq!(get_localized_text(&en.settings, "quit"), "Quit");
    assert_eq!(get_localized_text(&en.settings, "other"), "other");
    let de = settings_with("language", Json::Str("de".to_string()));
    assert_eq!(get_localized_text(&de.settings, "show"), "Anzeigen");
    assert_eq!(get_localized_text(&de.settings, "update"), "Nach Updates suchen");
    assert_eq!(get_localized_text(&de.settings, "quit"), "Beenden");
    let none = settings_with("language", Json::Null);
    assert_eq!(get_localized_text(&none.settings, "quit"), "Quit");
}

#[test]
fn update_report() {
    let u = update_info(Some(("1.2.0".to_string(), Some("fixes".to_string()), None)));
    assert!(u.available);
    assert_eq!(u.version.as_deref(), Some("1.2.0"));
    assert_eq!(u.notes.as_deref(), Some("fixes"));
    assert_eq!(u.pub_date, None);
    let none = update_info(None);
    assert!(!none.available);
    assert_eq!(none.version, None);
}
