use remind::instant::Instant;
use remind::reminder::Reminder;
use remind::store::AppData;
use remind::timer::{FireSignal, IntervalKind, SchedulePlan, TimerManager};

const T0: i64 = 1_704_067_200; // 2024-01-01T00:00:00Z

fn at(secs: i64) -> Instant {
    Instant { secs, nanos: 0 }
}

fn reminder(id: &str, interval: &str, value: u32, date: Option<&str>) -> Reminder {
    Reminder {
        id: id.to_string(),
        name: format!("name of {}", id),
        interval: interval.to_string(),
        interval_value: value,
        specific_date: date.map(|d| d.to_string()),
        specific_time: None,
        color: "#ffffff".to_string(),
        created_at: "2024-01-01T00:00:00Z".to_string(),
        last_notified: None,
        active: true,
        next_execution: None,
    }
}

#[test]
fn next_execution_minutes_hours_days_weeks() {
    let now = at(T0);
    let cases = [("minutes", 60), ("hours", 3600), ("days", 86400), ("weeks", 604800)];
    for (name, unit) in cases {
        let r = reminder("a", name, 3, None);
        let next = TimerManager::<()>::calculate_next_execution(&r, now);
        assert_eq!(next, Some(at(T0 + 3 * unit)));
    }
}

#[test]
fn next_execution_keeps_subsecond_part() {
    let now = Instant { secs: T0, nanos: 250_000_000 };
    let r = reminder("a", "minutes", 1, None);
    assert_eq!(
        TimerManager::<()>::calculate_next_execution(&r, now),
        Some(Instant { secs: T0 + 60, nanos: 250_000_000 })
    );
}

#[test]
fn next_execution_months_are_28_days() {
    let r = reminder("a", "months", 2, None);
    assert_eq!(TimerManager::<()>::calculate_next_execution(&r, at(T0)), Some(at(T0 + 2 * 28 * 86400)));
}

#[test]
fn next_execution_largest_interval_value() {
    let r = reminder("a", "weeks", u32::MAX, None);
    assert_eq!(
        TimerManager::<()>::calculate_next_execution(&r, at(T0)),
        Some(at(T0 + u32::MAX as i64 * 604800))
    );
}

#[test]
fn next_execution_unknown_kind_is_none() {
    let r = reminder("a", "fortnights", 1, None);
    assert_eq!(TimerManager::<()>::calculate_next_execution(&r, at(T0)), None);
    assert_eq!(IntervalKind::from_name("Minutes"), None);
    assert_eq!(IntervalKind::from_name("specific"), Some(IntervalKind::SpecificDate));
}

#[test]
fn specific_date_in_the_past_is_none() {
    let r = reminder("a", "specific", 0, Some("2023-12-31T23:59:59Z"));
    assert_eq!(TimerManager::<()>::calculate_next_execution(&r, at(T0)), None);
}

#[test]
fn specific_date_at_or_after_now_is_that_date() {
    let r = reminder("a", "specific", 0, Some("2024-01-01T00:00:00Z"));
    assert_eq!(TimerManager::<()>::calculate_next_execution(&r, at(T0)), Some(at(T0)));
    let r = reminder("a", "specific", 0, Some("2024-01-01T02:00:00+01:00"));
    assert_eq!(TimerManager::<()>::calculate_next_execution(&r, at(T0)), Some(at(T0 + 3600)));
}

#[test]
fn specific_date_missing_or_unparsable_is_none() {
    let r = reminder("a", "specific", 0, None);
    assert_eq!(TimerManager::<()>::calculate_next_execution(&r, at(T0)), None);
    let r = reminder("a", "specific", 0, Some("tomorrow"));
    assert_eq!(TimerManager::<()>::calculate_next_execution(&r, at(T0)), None);
}

#[test]
fn specific_date_keeps_fraction_of_second() {
    let r = reminder("a", "specific", 0, Some("2024-01-01T00:00:00.5Z"));
    assert_eq!(
        TimerManager::<()>::calculate_next_execution(&r, at(T0)),
        Some(Instant { secs: T0, nanos: 500_000_000 })
    );
}

#[test]
fn next_execution_text_is_left_out_beyond_calendar_range() {
    let mut m: TimerManager<u32> = TimerManager::new();
    let r = reminder("a", "minutes", 1, None);
    match m.schedule_reminder(r, at(i64::MAX / 2), 0) {
        SchedulePlan::Armed { reminder, at: next, .. } => {
            assert_eq!(next, at(i64::MAX / 2 + 60));
            assert_eq!(reminder.next_execution, None);
        }
        _ => panic!("expected an armed timer"),
    }
}

#[test]
fn schedule_arms_future_reminder() {
    let mut m: TimerManager<u32> = TimerManager::new();
    let r = reminder("a", "minutes", 2, None);
    match m.schedule_reminder(r, Instant { secs: T0, nanos: 100 }, 7) {
        SchedulePlan::Armed { reminder, at: next, delay, ticket, superseded } => {
            assert_eq!(next, Instant { secs: T0 + 120, nanos: 100 });
            assert_eq!(delay.secs, 120);
            assert_eq!(delay.nanos, 0);
            assert_eq!(ticket, 0);
            assert_eq!(superseded, None);
            assert_eq!(reminder.next_execution.as_deref(), Some("2024-01-01T00:02:00.000000100+00:00"));
        }
        _ => panic!("expected an armed timer"),
    }
    assert!(m.is_scheduled("a"));
    assert!(!m.is_scheduled("b"));
}

#[test]
fn schedule_due_reminder_fires_now() {
    let mut m: TimerManager<u32> = TimerManager::new();
    let r = reminder("a", "specific", 0, Some("2024-01-01T00:00:00Z"));
    match m.schedule_reminder(r, at(T0), 1) {
        SchedulePlan::FireNow(updated) => {
            assert_eq!(updated.next_execution.as_deref(), Some("2024-01-01T00:00:00+00:00"));
        }
        _ => panic!("expected an immediate fire"),
    }
    assert!(!m.is_scheduled("a"));
}

#[test]
fn schedule_unschedulable_reminder() {
    let mut m: TimerManager<u32> = TimerManager::new();
    let r = reminder("a", "specific", 0, Some("2020-01-01T00:00:00Z"));
    assert!(matches!(m.schedule_reminder(r, at(T0), 1), SchedulePlan::Unschedulable));
    assert!(!m.is_scheduled("a"));
}

#[test]
fn delay_borrows_a_second() {
    let mut m: TimerManager<u32> = TimerManager::new();
    let r = reminder("a", "specific", 0, Some("2024-01-01T00:00:10.25Z"));
    match m.schedule_reminder(r, Instant { secs: T0, nanos: 500_000_000 }, 1) {
        SchedulePlan::Armed { delay, .. } => {
            assert_eq!(delay.secs, 9);
            assert_eq!(delay.nanos, 750_000_000);
        }
        _ => panic!("expected an armed timer"),
    }
}

#[test]
fn repeated_arming_keeps_one_timer() {
    let mut m: TimerManager<u32> = TimerManager::new();
    let mut tickets = Vec::new();
    for handle in 0..5u32 {
        let r = reminder("a", "minutes", 1, None);
        match m.schedule_reminder(r, at(T0), handle) {
            SchedulePlan::Armed { ticket, superseded, .. } => {
                if handle == 0 {
                    assert_eq!(superseded, None);
                } else {
                    assert_eq!(superseded, Some(handle - 1));
                }
                tickets.push(ticket);
            }
            _ => panic!("expected an armed timer"),
        }
    }
    let status = m.get_timer_status(&AppData {
        version: 2,
        reminders: vec![reminder("a", "minutes", 1, None)],
        settings: Vec::new(),
    });
    assert_eq!(status.len(), 1);
    assert!(status[0].is_scheduled);
    for t in &tickets[..4] {
        assert!(!m.claim_fire("a", *t));
    }
    assert!(m.claim_fire("a", tickets[4]));
    assert!(!m.is_scheduled("a"));
}

#[test]
fn cancel_before_deadline_prevents_fire() {
    let mut m: TimerManager<u32> = TimerManager::new();
    let ticket = match m.schedule_reminder(reminder("a", "hours", 1, None), at(T0), 9) {
        SchedulePlan::Armed { ticket, .. } => ticket,
        _ => panic!("expected an armed timer"),
    };
    assert_eq!(m.cancel_reminder("a"), Some(9));
    assert!(!m.claim_fire("a", ticket));
    assert_eq!(m.cancel_reminder("a"), None);
}

#[test]
fn cancel_after_fire_has_no_effect() {
    let mut m: TimerManager<u32> = TimerManager::new();
    let ticket = match m.schedule_reminder(reminder("a", "hours", 1, None), at(T0), 9) {
        SchedulePlan::Armed { ticket, .. } => ticket,
        _ => panic!("expected an armed timer"),
    };
    assert!(m.claim_fire("a", ticket));
    assert_eq!(m.cancel_reminder("a"), None);
    assert!(!m.claim_fire("a", ticket));
}

#[test]
fn recurring_fire_rearms_later() {
    let r = reminder("a", "hours", 2, None);
    let (updated, signal) = TimerManager::<u32>::execute_reminder(&r, at(T0 + 10));
    assert_eq!(signal, FireSignal::Rescheduled);
    assert!(updated.active);
    assert_eq!(updated.last_notified.as_deref(), Some("2024-01-01T00:00:10+00:00"));
    assert_eq!(updated.next_execution.as_deref(), Some("2024-01-01T02:00:10+00:00"));
    let mut m: TimerManager<u32> = TimerManager::new();
    match m.schedule_reminder(updated, at(T0 + 10), 0) {
        SchedulePlan::Armed { at: next, .. } => assert_eq!(next, at(T0 + 10 + 7200)),
        _ => panic!("expected an armed timer"),
    }
}

#[test]
fn specific_fire_deactivates() {
    let r = reminder("a", "specific", 0, Some("2024-01-01T00:00:00Z"));
    let (updated, signal) = TimerManager::<u32>::execute_reminder(&r, at(T0));
    assert_eq!(signal, FireSignal::Deactivated);
    assert!(!updated.active);
    assert_eq!(updated.last_notified.as_deref(), Some("2024-01-01T00:00:00+00:00"));
    let m: TimerManager<u32> = TimerManager::new();
    let data = AppData { version: 2, reminders: vec![updated], settings: Vec::new() };
    assert!(m.start(&data).is_empty());
}

#[test]
fn unknown_kind_fire_is_executed_only() {
    let r = reminder("a", "yearly", 1, None);
    let (updated, signal) = TimerManager::<u32>::execute_reminder(&r, at(T0));
    assert_eq!(signal, FireSignal::Executed);
    assert!(updated.active);
    assert_eq!(updated.next_execution, None);
}

#[test]
fn minute_reminder_end_to_end() {
    let mut m: TimerManager<u32> = TimerManager::new();
    let r = reminder("a", "minutes", 1, None);
    let ticket = match m.schedule_reminder(r.clone(), at(T0), 0) {
        SchedulePlan::Armed { at: next, ticket, .. } => {
            assert_eq!(next, at(T0 + 60));
            ticket
        }
        _ => panic!("expected an armed timer"),
    };
    // the clock reaches the deadline: the timer fires once
    assert!(m.claim_fire("a", ticket));
    assert!(!m.claim_fire("a", ticket));
    let (updated, signal) = TimerManager::<u32>::execute_reminder(&r, at(T0 + 60));
    assert_eq!(signal, FireSignal::Rescheduled);
    assert_eq!(updated.next_execution.as_deref(), Some("2024-01-01T00:02:00+00:00"));
    let mut again: TimerManager<u32> = TimerManager::new();
    match again.schedule_reminder(updated, at(T0 + 60), 1) {
        SchedulePlan::Armed { at: next, .. } => assert_eq!(next, at(T0 + 120)),
        _ => panic!("expected an armed timer"),
    }
}

#[test]
fn start_picks_active_reminders_in_order() {
    let m: TimerManager<u32> = TimerManager::new();
    let mut off = reminder("b", "days", 1, None);
    off.active = false;
    let data = AppData {
        version: 2,
        reminders: vec![reminder("a", "days", 1, None), off, reminder("c", "weeks", 1, None)],
        settings: Vec::new(),
    };
    let ids: Vec<String> = m.start(&data).into_iter().map(|r| r.id).collect();
    assert_eq!(ids, vec!["a".to_string(), "c".to_string()]);
}

#[test]
fn timer_status_reports_active_reminders() {
    let mut m: TimerManager<u32> = TimerManager::new();
    let mut a = reminder("a", "days", 1, None);
    a.next_execution = Some("2024-01-02T01:00:00+01:00".to_string());
    let mut b = reminder("b", "days", 1, None);
    b.active = false;
    let mut c = reminder("c", "days", 1, None);
    c.next_execution = Some("garbage".to_string());
    let _ = m.schedule_reminder(a.clone(), at(T0), 1);
    let data = AppData { version: 2, reminders: vec![a, b, c], settings: Vec::new() };
    let status = m.get_timer_status(&data);
    assert_eq!(status.len(), 2);
    assert_eq!(status[0].reminder_id, "a");
    assert_eq!(status[0].reminder_name, "name of a");
    assert_eq!(status[0].next_execution.as_deref(), Some("2024-01-02T00:00:00+00:00"));
    assert!(status[0].is_scheduled);
    assert_eq!(status[1].reminder_id, "c");
    assert_eq!(status[1].next_execution, None);
    assert!(!status[1].is_scheduled);
}

#[test]
fn rearm_request_finds_first_active_match() {
    let mut off = reminder("a", "days", 1, None);
    off.active = false;
    let mut on = reminder("a", "days", 2, None);
    on.name = "second".to_string();
    let data = AppData { version: 2, reminders: vec![off, reminder("b", "days", 1, None), on], settings: Vec::new() };
    let found = TimerManager::<u32>::reminder_to_rearm(&data, "a").unwrap();
    assert_eq!(found.name, "second");
    assert!(TimerManager::<u32>::reminder_to_rearm(&data, "zzz").is_none());
    let mut only_off = reminder("c", "days", 1, None);
    only_off.active = false;
    let data = AppData { version: 2, reminders: vec![only_off], settings: Vec::new() };
    assert!(TimerManager::<u32>::reminder_to_rearm(&data, "c").is_none());
}

#[test]
fn fire_events_are_named() {
    assert_eq!(FireSignal::Deactivated.event_name(), "reminder-deactivated");
    assert_eq!(FireSignal::Rescheduled.event_name(), "reminder-executed");
    assert_eq!(FireSignal::Executed.event_name(), "reminder-executed");
}

#[test]
fn zero_interval_fire_is_not_rearmed() {
    let r = reminder("a", "minutes", 0, None);
    let (updated, signal) = TimerManager::<u32>::execute_reminder(&r, at(T0));
    assert_eq!(signal, FireSignal::Executed);
    assert_eq!(updated.next_execution.as_deref(), Some("2024-01-01T00:00:00+00:00"));
    let mut m: TimerManager<u32> = TimerManager::new();
    assert!(matches!(m.schedule_reminder(r, at(T0), 0), SchedulePlan::FireNow(_)));
}
