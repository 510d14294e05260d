use vstd::prelude::*;
use crate::instant::{
    format_rfc3339, parse_rfc3339, rfc3339_instant, rfc3339_text, Delay, Instant, INSTANT_SECS_LIMIT,
};
use crate::json::text_eq;
use crate::registry::{armed, owns_entry, TimerRegistry};
use crate::reminder::{opt_view, Reminder, ReminderV};
use crate::store::{reminders_view, AppData};

verus! {

/// How a reminder repeats.
#[derive(Debug, Clone, Copy, PartialEq, Eq, Structural)]
pub enum IntervalKind {
    Minutes,
    Hours,
    Days,
    Weeks,
    /// Every 28 days: a fixed approximation, not a calendar month.
    Months,
    /// Once, at the reminder's specific date.
    SpecificDate,
}

/// The interval kind that a stored interval name denotes.
pub open spec fn interval_kind(name: Seq<char>) -> Option<IntervalKind> {
    if name == "minutes"@ {
        Some(IntervalKind::Minutes)
    } else if name == "hours"@ {
        Some(IntervalKind::Hours)
    } else if name == "days"@ {
        Some(IntervalKind::Days)
    } else if name == "weeks"@ {
        Some(IntervalKind::Weeks)
    } else if name == "months"@ {
        Some(IntervalKind::Months)
    } else if name == "specific"@ {
        Some(IntervalKind::SpecificDate)
    } else {
        None
    }
}

/// Length in seconds of one unit of a recurring kind.
pub open spec fn unit_seconds(kind: IntervalKind) -> int {
    match kind {
        IntervalKind::Minutes => 60,
        IntervalKind::Hours => 3600,
        IntervalKind::Days => 86400,
        IntervalKind::Weeks => 604800,
        IntervalKind::Months => 2419200,
        IntervalKind::SpecificDate => 0,
    }
}

pub open spec fn is_recurring(kind: IntervalKind) -> bool {
    kind != IntervalKind::SpecificDate
}

impl IntervalKind {
    pub fn from_name(name: &str) -> (r: Option<IntervalKind>)
        ensures
            r == interval_kind(name@),
    {
        if text_eq(name, "minutes") {
            Some(IntervalKind::Minutes)
        } else if text_eq(name, "hours") {
            Some(IntervalKind::Hours)
        } else if text_eq(name, "days") {
            Some(IntervalKind::Days)
        } else if text_eq(name, "weeks") {
            Some(IntervalKind::Weeks)
        } else if text_eq(name, "months") {
            Some(IntervalKind::Months)
        } else if text_eq(name, "specific") {
            Some(IntervalKind::SpecificDate)
        } else {
            None
        }
    }

    pub fn seconds_per_unit(&self) -> (r: u64)
        ensures
            r == unit_seconds(*self),
    {
        match self {
            IntervalKind::Minutes => 60,
            IntervalKind::Hours => 3600,
            IntervalKind::Days => 86400,
            IntervalKind::Weeks => 604800,
            IntervalKind::Months => 2419200,
            IntervalKind::SpecificDate => 0,
        }
    }
}

/// The next instant at which a reminder fires, seen from `now`: `interval_value` units
/// after `now` for a recurring kind; the specific date for a one-shot reminder, unless it
/// lies before `now` or does not parse; nothing for an unknown kind.
pub open spec fn next_execution(r: ReminderV, now: Instant) -> Option<Instant> {
    match interval_kind(r.interval) {
        Some(IntervalKind::SpecificDate) => match r.specific_date {
            Some(d) => match rfc3339_instant(d) {
                Some(p) => {
                    let at = Instant { secs: p.0, nanos: p.1 };
                    if at.before(now) {
                        None
                    } else {
                        Some(at)
                    }
                },
                None => None,
            },
            None => None,
        },
        Some(k) => Some(now.plus_secs(r.interval_value as int * unit_seconds(k))),
        None => None,
    }
}

/// What scheduling a reminder comes to.
pub enum SchedulePlan<H> {
    /// No next instant: the reminder stays unscheduled.
    Unschedulable,
    /// The next instant is already due: fire at once. The reminder carries its next
    /// execution time.
    FireNow(Reminder),
    /// A timer was armed under `ticket`, to wait `delay` until `at`. A superseded timer's
    /// handle comes back to be cancelled.
    Armed { reminder: Reminder, at: Instant, delay: Delay, ticket: u64, superseded: Option<H> },
}

/// The reminder with its cached next execution time set to `at`.
pub open spec fn with_next_execution(r: ReminderV, at: Instant) -> ReminderV {
    ReminderV { next_execution: rfc3339_text(at.secs, at.nanos), ..r }
}

/// The reminder after it fired at `now`: `last_notified` is `now`; a one-shot reminder is
/// deactivated; a recurring one gets its next execution time, counted from `now`.
pub open spec fn after_fire(r: ReminderV, now: Instant) -> ReminderV {
    let notified = ReminderV { last_notified: rfc3339_text(now.secs, now.nanos), ..r };
    if interval_kind(r.interval) == Some(IntervalKind::SpecificDate) {
        ReminderV { active: false, ..notified }
    } else {
        match next_execution(r, now) {
            Some(n) => with_next_execution(notified, n),
            None => notified,
        }
    }
}

/// What a fire tells the rest of the application.
#[derive(Debug, Clone, Copy, PartialEq, Eq, Structural)]
pub enum FireSignal {
    /// A one-shot reminder fired and is now inactive.
    Deactivated,
    /// A recurring reminder fired and is to be armed again.
    Rescheduled,
    /// A reminder fired that has no later instant to be armed for: its kind is unknown,
    /// or its interval is zero.
    Executed,
}

/// The user-interface event that a signal is announced by.
pub open spec fn event_of(signal: FireSignal) -> Seq<char> {
    match signal {
        FireSignal::Deactivated => "reminder-deactivated"@,
        _ => "reminder-executed"@,
    }
}

impl FireSignal {
    /// The name of the event that announces the fire to the user interface.
    pub fn event_name(&self) -> (r: String)
        ensures
            r@ == event_of(*self),
    {
        match self {
            FireSignal::Deactivated => String::from_str("reminder-deactivated"),
            _ => String::from_str("reminder-executed"),
        }
    }
}

pub open spec fn fire_signal(r: ReminderV, now: Instant) -> FireSignal {
    if interval_kind(r.interval) == Some(IntervalKind::SpecificDate) {
        FireSignal::Deactivated
    } else if next_execution(r, now) matches Some(n) && now.before(n) {
        FireSignal::Rescheduled
    } else {
        FireSignal::Executed
    }
}

/// What the status of one active reminder reports.
#[derive(Debug, Clone)]
pub struct TimerStatus {
    pub reminder_id: String,
    pub reminder_name: String,
    pub next_execution: Option<String>,
    pub is_scheduled: bool,
}

/// The scheduling engine: it decides when reminders fire and keeps their live timers.
pub struct TimerManager<H> {
    timers: TimerRegistry<H>,
}

pub open spec fn is_active_with_id(r: ReminderV, id: Seq<char>) -> bool {
    r.active && r.id == id
}

/// The active reminders of `s`, in order.
pub open spec fn active_only(s: Seq<ReminderV>) -> Seq<ReminderV> {
    s.filter(|r: ReminderV| r.active)
}

impl<H> TimerManager<H> {
    pub open spec fn wf(&self) -> bool {
        self.registry().wf()
    }

    pub closed spec fn registry(&self) -> TimerRegistry<H> {
        self.timers
    }

    /// The live timers: reminder id to ticket.
    pub open spec fn live(&self) -> Map<Seq<char>, u64> {
        self.registry().live()
    }

    pub fn new() -> (r: TimerManager<H>)
        ensures
            r.wf(),
            r.registry().upcoming_ticket() == 0,
            r.live() == Map::<Seq<char>, u64>::empty(),
    {
        TimerManager { timers: TimerRegistry::new() }
    }

    /// Every live timer holds a ticket below the next arming's ticket.
    pub proof fn lemma_live_below(&self)
        requires
            self.wf(),
        ensures
            forall|k: Seq<char>| #[trigger] self.live().contains_key(k) ==> self.live()[k] < self.registry().upcoming_ticket(),
    {
        self.registry().lemma_live_below();
    }

    /// Whether another timer can be armed.
    pub fn can_arm(&self) -> (r: bool)
        ensures
            r == (self.registry().upcoming_ticket() < u64::MAX),
    {
        self.timers.can_arm()
    }

    /// Whether a timer is live for `id`.
    pub fn is_scheduled(&self, id: &str) -> (r: bool)
        requires
            self.wf(),
        ensures
            r == self.live().contains_key(id@),
    {
        self.timers.is_scheduled(id)
    }

    /// The next instant at which `reminder` fires, seen from `now`.
    pub fn calculate_next_execution(reminder: &Reminder, now: Instant) -> (r: Option<Instant>)
        requires
            now.in_range(),
        ensures
            r == next_execution(reminder@, now),
    {
        match IntervalKind::from_name(reminder.interval.as_str()) {
            Some(IntervalKind::SpecificDate) => match &reminder.specific_date {
                Some(d) => match parse_rfc3339(d.as_str()) {
                    Some(at) => if at.is_before(&now) {
                        None
                    } else {
                        Some(at)
                    },
                    None => None,
                },
                None => None,
            },
            Some(kind) => {
                let unit = kind.seconds_per_unit();
                let value = reminder.interval_value as u64;
                assert(value * unit <= 100_000_000_000_000_000) by (nonlinear_arith)
                    requires
                        value <= u32::MAX,
                        unit <= 2419200;
                Some(now.add_secs(value * unit))
            },
            None => None,
        }
    }

    /// The reminders that are active, in their stored order: those that startup schedules.
    pub fn start(&self, data: &AppData) -> (r: Vec<Reminder>)
        ensures
            reminders_view(r@) == active_only(reminders_view(data.reminders@)),
    {
        let ghost all = reminders_view(data.reminders@);
        let mut out: Vec<Reminder> = Vec::new();
        let mut i: usize = 0;
        while i < data.reminders.len()
            invariant
                all == reminders_view(data.reminders@),
                i <= data.reminders.len(),
                reminders_view(out@) == active_only(all.subrange(0, i as int)),
            decreases data.reminders.len() - i,
        {
            let ghost before = out@;
            assert(all.subrange(0, i + 1).drop_last() =~= all.subrange(0, i as int));
            reveal(Seq::filter);
            if data.reminders[i].active {
                out.push(data.reminders[i].duplicate());
                assert(reminders_view(out@) =~= reminders_view(before).push(all[i as int]));
            }
            i = i + 1;
        }
        assert(all.subrange(0, i as int) =~= all);
        out
    }

    /// Schedules `reminder` at `now`. Where its next instant is already due, it is to fire
    /// at once; where it lies ahead, a timer is armed for it with `handle`, superseding any
    /// timer live for the same id.
    pub fn schedule_reminder(&mut self, reminder: Reminder, now: Instant, handle: H) -> (r: SchedulePlan<H>)
        requires
            old(self).wf(),
            now.is_reading(),
            old(self).registry().upcoming_ticket() < u64::MAX,
        ensures
            final(self).wf(),
            (match next_execution(reminder@, now) {
                None => r is Unschedulable && final(self).live() == old(self).live()
                    && final(self).registry().upcoming_ticket() == old(self).registry().upcoming_ticket(),
                Some(at) => if !now.before(at) {
                    &&& r matches SchedulePlan::FireNow(x)
                    &&& x@ == with_next_execution(reminder@, at)
                    &&& final(self).live() == old(self).live()
                    &&& final(self).registry().upcoming_ticket() == old(self).registry().upcoming_ticket()
                } else {
                    &&& r matches SchedulePlan::Armed { reminder: x, at: a, delay, ticket, superseded }
                    &&& x@ == with_next_execution(reminder@, at)
                    &&& a == at
                    &&& delay.total_nanos() == at.total_nanos() - now.total_nanos()
                    &&& ticket == old(self).registry().upcoming_ticket()
                    &&& final(self).registry().upcoming_ticket() == old(self).registry().upcoming_ticket() + 1
                    &&& superseded is Some == old(self).live().contains_key(reminder@.id)
                    &&& final(self).live() == armed(old(self).live(), reminder@.id, ticket)
                },
            }),
    {
        let mut reminder = reminder;
        let at = match Self::calculate_next_execution(&reminder, now) {
            Some(at) => at,
            None => return SchedulePlan::Unschedulable,
        };
        reminder.next_execution = format_rfc3339(at);
        if !now.is_before(&at) {
            return SchedulePlan::FireNow(reminder);
        }
        let delay = at.delay_since(&now);
        let (ticket, superseded) = self.timers.arm(reminder.id.as_str(), handle);
        SchedulePlan::Armed { reminder, at, delay, ticket, superseded }
    }

    /// The reminder that a request to re-arm `reminder_id` concerns: the first stored one
    /// that is active and has that id.
    pub fn reminder_to_rearm(data: &AppData, reminder_id: &str) -> (r: Option<Reminder>)
        ensures
            (match r {
                Some(x) => exists|i: int|
                    0 <= i < data@.reminders.len() && is_active_with_id(data@.reminders[i], reminder_id@)
                        && x@ == data@.reminders[i] && forall|j: int|
                        0 <= j < i ==> !is_active_with_id(#[trigger] data@.reminders[j], reminder_id@),
                None => forall|j: int|
                    0 <= j < data@.reminders.len() ==> !is_active_with_id(#[trigger] data@.reminders[j], reminder_id@),
            }),
    {
        let ghost s = reminders_view(data.reminders@);
        let mut i: usize = 0;
        while i < data.reminders.len()
            invariant
                s == reminders_view(data.reminders@),
                i <= data.reminders.len(),
                forall|j: int| 0 <= j < i ==> !is_active_with_id(#[trigger] s[j], reminder_id@),
            decreases data.reminders.len() - i,
        {
            if data.reminders[i].active && text_eq(data.reminders[i].id.as_str(), reminder_id) {
                let x = data.reminders[i].duplicate();
                assert(is_active_with_id(s[i as int], reminder_id@));
                assert(x@ == s[i as int]);
                assert(data@.reminders == s);
                return Some(x);
            }
            i = i + 1;
        }
        None
    }

    /// Cancels the live timer of a reminder, handing back its handle to be signalled.
    pub fn cancel_reminder(&mut self, reminder_id: &str) -> (r: Option<H>)
        requires
            old(self).wf(),
        ensures
            final(self).wf(),
            final(self).registry().upcoming_ticket() == old(self).registry().upcoming_ticket(),
            final(self).live() == old(self).live().remove(reminder_id@),
            r is Some == old(self).live().contains_key(reminder_id@),
    {
        self.timers.cancel(reminder_id)
    }

    /// Called when the timer armed for `reminder_id` under `ticket` reaches its deadline:
    /// `true`, and the entry goes, only where that timer is still the live one.
    pub fn claim_fire(&mut self, reminder_id: &str, ticket: u64) -> (r: bool)
        requires
            old(self).wf(),
        ensures
            final(self).wf(),
            final(self).registry().upcoming_ticket() == old(self).registry().upcoming_ticket(),
            r == (old(self).live().contains_key(reminder_id@) && old(self).live()[reminder_id@] == ticket),
            r ==> final(self).live() == old(self).live().remove(reminder_id@),
            !r ==> final(self).live() == old(self).live(),
    {
        self.timers.claim_fire(reminder_id, ticket)
    }

    /// The state of a reminder after it fired at `now`, and the signal that follows.
    pub fn execute_reminder(reminder: &Reminder, now: Instant) -> (r: (Reminder, FireSignal))
        requires
            now.in_range(),
        ensures
            r.0@ == after_fire(reminder@, now),
            r.1 == fire_signal(reminder@, now),
    {
        let mut updated = reminder.duplicate();
        updated.last_notified = format_rfc3339(now);
        match IntervalKind::from_name(reminder.interval.as_str()) {
            Some(IntervalKind::SpecificDate) => {
                updated.active = false;
                (updated, FireSignal::Deactivated)
            },
            _ => match Self::calculate_next_execution(reminder, now) {
                Some(next) => {
                    updated.next_execution = format_rfc3339(next);
                    if now.is_before(&next) {
                        (updated, FireSignal::Rescheduled)
                    } else {
                        (updated, FireSignal::Executed)
                    }
                },
                None => (updated, FireSignal::Executed),
            },
        }
    }

    /// The status of each active reminder of `data`, in stored order: its next execution
    /// time as stored, rewritten in UTC, and whether a timer is live for it.
    pub fn get_timer_status(&self, data: &AppData) -> (r: Vec<TimerStatus>)
        requires
            self.wf(),
        ensures
            r@.len() == active_only(reminders_view(data.reminders@)).len(),
            forall|i: int| 0 <= i < r@.len() ==> {
                let x = #[trigger] active_only(reminders_view(data.reminders@))[i];
                &&& r@[i].reminder_id@ == x.id
                &&& r@[i].reminder_name@ == x.name
                &&& opt_view(r@[i].next_execution) == status_time(x.next_execution)
                &&& r@[i].is_scheduled == self.live().contains_key(x.id)
            },
    {
        let ghost all = reminders_view(data.reminders@);
        let mut out: Vec<TimerStatus> = Vec::new();
        let mut i: usize = 0;
        while i < data.reminders.len()
            invariant
                self.wf(),
                all == reminders_view(data.reminders@),
                i <= data.reminders.len(),
                out@.len() == active_only(all.subrange(0, i as int)).len(),
                forall|j: int| 0 <= j < out@.len() ==> {
                    let x = #[trigger] active_only(all.subrange(0, i as int))[j];
                    &&& out@[j].reminder_id@ == x.id
                    &&& out@[j].reminder_name@ == x.name
                    &&& opt_view(out@[j].next_execution) == status_time(x.next_execution)
                    &&& out@[j].is_scheduled == self.live().contains_key(x.id)
                },
            decreases data.reminders.len() - i,
        {
            assert(all.subrange(0, i + 1).drop_last() =~= all.subrange(0, i as int));
            reveal(Seq::filter);
            let r = &data.reminders[i];
            if r.active {
                let next = match &r.next_execution {
                    Some(t) => match parse_rfc3339(t.as_str()) {
                        Some(at) => format_rfc3339(at),
                        None => None,
                    },
                    None => None,
                };
                out.push(TimerStatus {
                    reminder_id: r.id.clone(),
                    reminder_name: r.name.clone(),
                    next_execution: next,
                    is_scheduled: self.timers.is_scheduled(r.id.as_str()),
                });
            }
            i = i + 1;
        }
        assert(all.subrange(0, i as int) =~= all);
        out
    }
}

/// A stored next execution time as the status reports it: parsed and written again in
/// UTC; nothing where there is none or it does not parse.
pub open spec fn status_time(t: Option<Seq<char>>) -> Option<Seq<char>> {
    match t {
        Some(s) => match rfc3339_instant(s) {
            Some(p) => rfc3339_text(p.0, p.1),
            None => None,
        },
        None => None,
    }
}

/// A recurring reminder of kind minutes, hours, days or weeks next fires exactly
/// `interval_value` units after `now`.
pub proof fn lemma_recurring_next_execution(r: ReminderV, now: Instant, kind: IntervalKind)
    requires
        interval_kind(r.interval) == Some(kind),
        kind == IntervalKind::Minutes || kind == IntervalKind::Hours || kind == IntervalKind::Days
            || kind == IntervalKind::Weeks,
        now.in_range(),
    ensures
        next_execution(r, now) == Some(now.plus_secs(r.interval_value as int * unit_seconds(kind))),
        next_execution(r, now).unwrap().secs == now.secs + r.interval_value as int * unit_seconds(kind),
        next_execution(r, now).unwrap().nanos == now.nanos,
{
    assert(r.interval_value as int * unit_seconds(kind) <= 100_000_000_000_000_000) by (nonlinear_arith)
        requires
            r.interval_value <= u32::MAX,
            0 <= unit_seconds(kind) <= 2419200;
}

/// A one-shot reminder whose date lies before `now` has no next execution.
pub proof fn lemma_past_specific_date(r: ReminderV, now: Instant, at: Instant)
    requires
        interval_kind(r.interval) == Some(IntervalKind::SpecificDate),
        r.specific_date matches Some(d) && rfc3339_instant(d) == Some((at.secs, at.nanos)),
        at.before(now),
    ensures
        next_execution(r, now) is None,
{
}

/// A one-shot reminder whose date is at or after `now` next fires at that date; once it
/// fired it is inactive, nothing asks for it to be armed again, and its timer's entry is
/// gone from the registry.
pub proof fn lemma_specific_date_fires_once(
    r: ReminderV,
    now: Instant,
    at: Instant,
    fired_at: Instant,
    live: Map<Seq<char>, u64>,
    ticket: u64,
)
    requires
        interval_kind(r.interval) == Some(IntervalKind::SpecificDate),
        r.specific_date matches Some(d) && rfc3339_instant(d) == Some((at.secs, at.nanos)),
        !at.before(now),
        owns_entry(live, r.id, ticket),
    ensures
        next_execution(r, now) == Some(at),
        !after_fire(r, fired_at).active,
        fire_signal(r, fired_at) == FireSignal::Deactivated,
        !active_only(seq![after_fire(r, fired_at)]).contains(after_fire(r, fired_at)),
        !live.remove(r.id).contains_key(r.id),
{
    reveal_with_fuel(Seq::filter, 2);
    let f = after_fire(r, fired_at);
    assert(active_only(seq![f]) =~= Seq::<ReminderV>::empty());
}

/// After an active recurring reminder with a positive interval fires at `now`, it stays
/// active and asks to be armed again; seen from any later instant, its next execution lies
/// strictly after both that instant and `now`.
pub proof fn lemma_recurring_fire_rearms(r: ReminderV, now: Instant, later: Instant)
    requires
        interval_kind(r.interval) matches Some(k) && k != IntervalKind::SpecificDate,
        r.interval_value > 0,
        r.active,
        now.in_range(),
        later.in_range(),
        !later.before(now),
    ensures
        after_fire(r, now).active,
        fire_signal(r, now) == FireSignal::Rescheduled,
        next_execution(after_fire(r, now), later) matches Some(n) && later.before(n) && now.before(n),
{
    let k = interval_kind(r.interval).unwrap();
    assert(60 <= r.interval_value as int * unit_seconds(k) <= 100_000_000_000_000_000) by (nonlinear_arith)
        requires
            0 < r.interval_value <= u32::MAX,
            60 <= unit_seconds(k) <= 2419200;
}

/// Arming an id twice leaves one live timer for it, the second; the first no longer owns
/// an entry and cannot fire.
pub proof fn lemma_rearm_supersedes(live: Map<Seq<char>, u64>, id: Seq<char>, first: u64, second: u64)
    requires
        first != second,
    ensures
        armed(armed(live, id, first), id, second) == armed(live, id, second),
        owns_entry(armed(armed(live, id, first), id, second), id, second),
        !owns_entry(armed(armed(live, id, first), id, second), id, first),
        armed(live, id, second).dom() == live.dom().insert(id),
{
    assert(armed(armed(live, id, first), id, second) =~= armed(live, id, second));
    assert(armed(live, id, second).dom() =~= live.dom().insert(id));
}

/// A timer cancelled before its deadline cannot fire; a timer that fired has left the
/// registry, so cancelling it afterwards finds nothing.
pub proof fn lemma_cancel_excludes_fire(live: Map<Seq<char>, u64>, id: Seq<char>, ticket: u64)
    ensures
        !owns_entry(live.remove(id), id, ticket),
        owns_entry(live, id, ticket) ==> !live.remove(id).contains_key(id),
{
}

/// A reminder that repeats every minute, scheduled at `t0`, next fires at `t0 + 60 s`; when
/// it fires then, it stays active, asks to be armed again, and its next execution time
/// becomes `t0 + 120 s`.
pub proof fn lemma_minute_reminder_timeline(r: ReminderV, t0: Instant)
    requires
        r.interval == "minutes"@,
        r.interval_value == 1,
        r.active,
        t0.in_range(),
        t0.secs + 60 <= INSTANT_SECS_LIMIT,
    ensures
        next_execution(r, t0) == Some(t0.plus_secs(60)),
        after_fire(r, t0.plus_secs(60)).active,
        fire_signal(r, t0.plus_secs(60)) == FireSignal::Rescheduled,
        after_fire(r, t0.plus_secs(60)).next_execution == rfc3339_text((t0.secs + 120) as i64, t0.nanos),
{
}

/// Arming a reminder twice in a row, with the tickets the registry hands out, leaves one
/// live timer for it, the second: the first arming's ticket owns no entry at all, so its
/// timer cannot fire.
pub proof fn lemma_repeated_arming(live: Map<Seq<char>, u64>, id: Seq<char>, first: u64)
    requires
        forall|k: Seq<char>| #[trigger] live.contains_key(k) ==> live[k] < first,
        first < u64::MAX,
    ensures
        owns_entry(armed(armed(live, id, first), id, (first + 1) as u64), id, (first + 1) as u64),
        forall|k: Seq<char>| !#[trigger] owns_entry(armed(armed(live, id, first), id, (first + 1) as u64), k, first),
        armed(armed(live, id, first), id, (first + 1) as u64).dom() == live.dom().insert(id),
{
    lemma_rearm_supersedes(live, id, first, (first + 1) as u64);
    let m = armed(armed(live, id, first), id, (first + 1) as u64);
    assert forall|k: Seq<char>| !#[trigger] owns_entry(armed(armed(live, id, first), id, (first + 1) as u64), k, first) by {
        if k != id && live.contains_key(k) {
            assert(m[k] == live[k]);
        }
    }
}

} // verus!
