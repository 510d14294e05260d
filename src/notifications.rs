use vstd::prelude::*;
use crate::json::{fields_view, find_key, lemma_key_index, lookup, FieldsV, Json, JsonV};
use crate::reminder::Reminder;
use crate::store::AppData;

verus! {

/// A notification to show: its title, its body, and whether a sound plays with it.
pub struct Notification {
    pub title: String,
    pub body: String,
    pub play_sound: bool,
}

/// Whether the settings ask for a sound: the `notificationSound` flag, on where it is
/// missing or not a boolean.
pub open spec fn sound_setting(settings: FieldsV) -> bool {
    match lookup(settings, "notificationSound"@) {
        Some(JsonV::Bool(b)) => b,
        _ => true,
    }
}

pub fn notification_sound_enabled(settings: &Vec<(String, Json)>) -> (r: bool)
    ensures
        r == sound_setting(fields_view(settings@)),
{
    proof {
        lemma_key_index(fields_view(settings@), "notificationSound"@);
    }
    match find_key(settings, "notificationSound") {
        Some(i) => match &settings[i].1 {
            Json::Bool(b) => *b,
            _ => true,
        },
        None => true,
    }
}

/// A notification with the default sound.
pub fn send_notification(title: String, body: String) -> (r: Notification)
    ensures
        r.title@ == title@,
        r.body@ == body@,
        r.play_sound,
{
    Notification { title, body, play_sound: true }
}

/// A notification that plays a sound exactly where `play_sound` asks for one.
pub fn send_notification_with_sound(title: String, body: String, play_sound: bool) -> (r: Notification)
    ensures
        r.title@ == title@,
        r.body@ == body@,
        r.play_sound == play_sound,
{
    Notification { title, body, play_sound }
}

/// A notification whose sound follows the stored settings.
pub fn send_notification_with_settings(data: &AppData, title: String, body: String) -> (r: Notification)
    ensures
        r.title@ == title@,
        r.body@ == body@,
        r.play_sound == sound_setting(data@.settings),
{
    let sound = notification_sound_enabled(&data.settings);
    send_notification_with_sound(title, body, sound)
}

/// A reminder notification: its sound follows the stored settings.
pub fn send_reminder_notification(data: &AppData, title: String, body: String) -> (r: Notification)
    ensures
        r.title@ == title@,
        r.body@ == body@,
        r.play_sound == sound_setting(data@.settings),
{
    send_notification_with_settings(data, title, body)
}

/// The notification shown when a reminder fires: the application's name as title, and
/// `Reminder: ` followed by the reminder's name as body.
pub fn reminder_notification(data: &AppData, reminder: &Reminder) -> (r: Notification)
    ensures
        r.title@ == "ReMind"@,
        r.body@ == "Reminder: "@ + reminder.name@,
        r.play_sound == sound_setting(data@.settings),
{
    let mut body = String::from_str("Reminder: ");
    body.append(reminder.name.as_str());
    send_notification_with_settings(data, String::from_str("ReMind"), body)
}

/// The notification that tries the sound out: always with sound.
pub fn test_notification_sound() -> (r: Notification)
    ensures
        r.title@ == "Test Benachrichtigung"@,
        r.body@ == "Dies ist ein Test der Benachrichtigung mit Sound."@,
        r.play_sound,
{
    send_notification_with_sound(
        String::from_str("Test Benachrichtigung"),
        String::from_str("Dies ist ein Test der Benachrichtigung mit Sound."),
        true,
    )
}

/// The notification that tries the stored settings out.
pub fn test_notification_with_settings(data: &AppData) -> (r: Notification)
    ensures
        r.title@ == "Test Benachrichtigung"@,
        r.body@ == "Dies ist ein Test der Benachrichtigung mit Benutzereinstellungen."@,
        r.play_sound == sound_setting(data@.settings),
{
    send_notification_with_settings(
        data,
        String::from_str("Test Benachrichtigung"),
        String::from_str("Dies ist ein Test der Benachrichtigung mit Benutzereinstellungen."),
    )
}

} // verus!
