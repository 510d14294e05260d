use vstd::prelude::*;
use crate::json::text_eq;

verus! {

/// One armed timer: the reminder it belongs to, the ticket it was armed under, and the
/// handle that cancels it.
pub struct TimerEntry<H> {
    pub reminder_id: String,
    pub ticket: u64,
    pub handle: H,
}

/// The live timers, at most one per reminder id. Each arming gets a fresh ticket, so a
/// timer that was cancelled or superseded can tell that it no longer owns its entry.
pub struct TimerRegistry<H> {
    entries: Vec<TimerEntry<H>>,
    next_ticket: u64,
}

/// The registry after `id` was armed under `ticket`, replacing any earlier timer.
pub open spec fn armed(live: Map<Seq<char>, u64>, id: Seq<char>, ticket: u64) -> Map<Seq<char>, u64> {
    live.insert(id, ticket)
}

/// Whether a timer armed for `id` under `ticket` still owns its entry, and so may fire.
pub open spec fn owns_entry(live: Map<Seq<char>, u64>, id: Seq<char>, ticket: u64) -> bool {
    live.contains_key(id) && live[id] == ticket
}

impl<H> TimerRegistry<H> {
    /// The live timers: reminder id to ticket.
    pub closed spec fn live(&self) -> Map<Seq<char>, u64> {
        Map::new(
            |id: Seq<char>| exists|i: int| 0 <= i < self.entries@.len() && self.entries@[i].reminder_id@ == id,
            |id: Seq<char>|
                self.entries@[choose|i: int| 0 <= i < self.entries@.len() && self.entries@[i].reminder_id@ == id].ticket,
        )
    }

    /// The ticket the next arming gets.
    pub closed spec fn upcoming_ticket(&self) -> u64 {
        self.next_ticket
    }

    pub closed spec fn wf(&self) -> bool {
        &&& forall|i: int, j: int|
            0 <= i < self.entries@.len() && 0 <= j < self.entries@.len() && i != j
                ==> self.entries@[i].reminder_id@ != self.entries@[j].reminder_id@
        &&& forall|i: int| 0 <= i < self.entries@.len() ==> self.entries@[i].ticket < self.next_ticket
    }

    proof fn lemma_live_at(&self, i: int)
        requires
            self.wf(),
            0 <= i < self.entries@.len(),
        ensures
            self.live().contains_key(self.entries@[i].reminder_id@),
            self.live()[self.entries@[i].reminder_id@] == self.entries@[i].ticket,
    {
        let id = self.entries@[i].reminder_id@;
        assert(exists|k: int| 0 <= k < self.entries@.len() && self.entries@[k].reminder_id@ == id);
        let k = choose|k: int| 0 <= k < self.entries@.len() && self.entries@[k].reminder_id@ == id;
        assert(k == i);
    }

    /// Every live timer was armed under a ticket below the next one, so the next arming's
    /// ticket differs from all of them.
    pub proof fn lemma_live_below(&self)
        requires
            self.wf(),
        ensures
            forall|k: Seq<char>| #[trigger] self.live().contains_key(k) ==> self.live()[k] < self.upcoming_ticket(),
    {
        assert forall|k: Seq<char>| #[trigger] self.live().contains_key(k) implies self.live()[k] < self.upcoming_ticket() by {
            let j = choose|j: int| 0 <= j < self.entries@.len() && self.entries@[j].reminder_id@ == k;
            self.lemma_live_at(j);
        }
    }

    pub fn new() -> (r: TimerRegistry<H>)
        ensures
            r.wf(),
            r.upcoming_ticket() == 0,
            r.live() == Map::<Seq<char>, u64>::empty(),
    {
        let r = TimerRegistry { entries: Vec::new(), next_ticket: 0 };
        assert(r.live() =~= Map::<Seq<char>, u64>::empty());
        r
    }

    fn position(&self, id: &str) -> (r: Option<usize>)
        requires
            self.wf(),
        ensures
            r matches Some(i) ==> i < self.entries@.len() && self.entries@[i as int].reminder_id@ == id@,
            r is None ==> !self.live().contains_key(id@),
    {
        let mut i: usize = 0;
        while i < self.entries.len()
            invariant
                i <= self.entries@.len(),
                forall|j: int| 0 <= j < i ==> self.entries@[j].reminder_id@ != id@,
            decreases self.entries.len() - i,
        {
            if text_eq(self.entries[i].reminder_id.as_str(), id) {
                return Some(i);
            }
            i = i + 1;
        }
        None
    }

    /// Whether a timer is live for `id`.
    pub fn is_scheduled(&self, id: &str) -> (r: bool)
        requires
            self.wf(),
        ensures
            r == self.live().contains_key(id@),
    {
        match self.position(id) {
            Some(i) => {
                proof {
                    self.lemma_live_at(i as int);
                }
                true
            },
            None => false,
        }
    }

    /// Whether another timer can be armed: tickets are not exhausted.
    pub fn can_arm(&self) -> (r: bool)
        ensures
            r == (self.upcoming_ticket() < u64::MAX),
    {
        self.next_ticket < u64::MAX
    }

    /// Removes the entry at `i`; the other entries stay.
    fn take_at(&mut self, i: usize) -> (r: TimerEntry<H>)
        requires
            old(self).wf(),
            i < old(self).entries@.len(),
        ensures
            final(self).wf(),
            final(self).upcoming_ticket() == old(self).upcoming_ticket(),
            r.reminder_id@ == old(self).entries@[i as int].reminder_id@,
            r.ticket == old(self).entries@[i as int].ticket,
            final(self).live() == old(self).live().remove(r.reminder_id@),
    {
        proof {
            old(self).lemma_live_at(i as int);
        }
        let ghost before = self.entries@;
        let r = self.entries.remove(i);
        let ghost id = r.reminder_id@;
        assert(self.entries@ =~= before.remove(i as int));
        assert forall|k: Seq<char>| #[trigger] self.live().contains_key(k) == old(self).live().remove(id).contains_key(k) by {
            if self.live().contains_key(k) {
                let j = choose|j: int| 0 <= j < self.entries@.len() && self.entries@[j].reminder_id@ == k;
                if j < i {
                    assert(before[j] == self.entries@[j]);
                } else {
                    assert(before[j + 1] == self.entries@[j]);
                }
            }
            if old(self).live().remove(id).contains_key(k) {
                let j = choose|j: int| 0 <= j < before.len() && before[j].reminder_id@ == k;
                assert(j != i);
                if j < i {
                    assert(before[j] == self.entries@[j]);
                } else {
                    assert(before[j] == self.entries@[j - 1]);
                }
            }
        }
        assert forall|k: Seq<char>| #[trigger] self.live().contains_key(k) implies self.live()[k] == old(self).live()[k] by {
            let j = choose|j: int| 0 <= j < self.entries@.len() && self.entries@[j].reminder_id@ == k;
            self.lemma_live_at(j);
            if j < i {
                old(self).lemma_live_at(j);
            } else {
                old(self).lemma_live_at(j + 1);
            }
        }
        assert(self.live() =~= old(self).live().remove(id));
        r
    }

    /// Arms a timer for `id`. A timer already live for `id` is superseded: its handle is
    /// handed back so that it can be cancelled, and only the new one stays live.
    pub fn arm(&mut self, id: &str, handle: H) -> (r: (u64, Option<H>))
        requires
            old(self).wf(),
            old(self).upcoming_ticket() < u64::MAX,
        ensures
            final(self).wf(),
            r.0 == old(self).upcoming_ticket(),
            final(self).upcoming_ticket() == old(self).upcoming_ticket() + 1,
            final(self).live() == armed(old(self).live(), id@, r.0),
            r.1 is Some == old(self).live().contains_key(id@),
    {
        let superseded = match self.position(id) {
            Some(i) => Some(self.take_at(i).handle),
            None => None,
        };
        let ghost mid = self.live();
        assert(mid == old(self).live().remove(id@));
        let ticket = self.next_ticket;
        let ghost before = self.entries@;
        self.entries.push(TimerEntry { reminder_id: id.to_owned(), ticket, handle });
        self.next_ticket = ticket + 1;
        assert forall|k: Seq<char>| #[trigger] self.live().contains_key(k) == armed(mid, id@, ticket).contains_key(k) by {
            if mid.contains_key(k) {
                let j = choose|j: int| 0 <= j < before.len() && before[j].reminder_id@ == k;
                assert(self.entries@[j] == before[j]);
            }
            if k == id@ {
                assert(self.entries@[before.len() as int].reminder_id@ == k);
            }
            if self.live().contains_key(k) && k != id@ {
                let j = choose|j: int| 0 <= j < self.entries@.len() && self.entries@[j].reminder_id@ == k;
                assert(j < before.len());
                assert(before[j] == self.entries@[j]);
            }
        }
        assert(self.wf()) by {
            assert forall|j: int| 0 <= j < before.len() implies before[j].reminder_id@ != id@ by {
                if before[j].reminder_id@ == id@ {
                    assert(mid.contains_key(id@));
                }
            }
        }
        assert forall|k: Seq<char>| #[trigger] self.live().contains_key(k) implies self.live()[k] == armed(mid, id@, ticket)[k] by {
            let j = choose|j: int| 0 <= j < self.entries@.len() && self.entries@[j].reminder_id@ == k;
            self.lemma_live_at(j);
            if j < before.len() {
                assert(before[j] == self.entries@[j]);
                assert(mid.contains_key(k)) by {
                    assert(0 <= j < before.len() && before[j].reminder_id@ == k);
                }
            }
        }
        assert(self.live() =~= armed(mid, id@, ticket));
        assert(armed(mid, id@, ticket) =~= armed(old(self).live(), id@, ticket));
        (ticket, superseded)
    }

    /// Cancels the live timer for `id`, if any: its entry goes, and its handle is handed
    /// back to be signalled.
    pub fn cancel(&mut self, id: &str) -> (r: Option<H>)
        requires
            old(self).wf(),
        ensures
            final(self).wf(),
            final(self).upcoming_ticket() == old(self).upcoming_ticket(),
            final(self).live() == old(self).live().remove(id@),
            r is Some == old(self).live().contains_key(id@),
    {
        match self.position(id) {
            Some(i) => Some(self.take_at(i).handle),
            None => {
                assert(self.live() =~= self.live().remove(id@));
                None
            },
        }
    }

    /// Called when the timer armed for `id` under `ticket` reaches its deadline. Where it
    /// still owns its entry, the entry goes and the fire may proceed (`true`); a timer that
    /// was cancelled or superseded leaves the registry as it is (`false`).
    pub fn claim_fire(&mut self, id: &str, ticket: u64) -> (r: bool)
        requires
            old(self).wf(),
        ensures
            final(self).wf(),
            final(self).upcoming_ticket() == old(self).upcoming_ticket(),
            r == owns_entry(old(self).live(), id@, ticket),
            r ==> final(self).live() == old(self).live().remove(id@),
            !r ==> final(self).live() == old(self).live(),
    {
        match self.position(id) {
            Some(i) => {
                proof {
                    self.lemma_live_at(i as int);
                }
                if self.entries[i].ticket == ticket {
                    let _ = self.take_at(i);
                    true
                } else {
                    false
                }
            },
            None => false,
        }
    }
}

} // verus!
