//! The scheduler core: one timer per tenant, each due at an absolute time.
//!
//! All mutation goes through one owner (the control loop), which sleeps until
//! [`TimerTable::next_due`], hands what [`TimerTable::pop_due`] returns to an
//! execution, and applies enqueue and dequeue requests in between. A fired
//! timer is not repeated by the table: its execution re-arms it, which is a
//! no-op when the tenant was removed in the meantime.
use vstd::prelude::*;
use std::collections::HashSet;

use crate::schedule::{schedule_delay, GuildSchedule, GuildScheduleView, Schedule, ScheduleView, schedule_of};

verus! {

broadcast use vstd::std_specs::hash::group_hash_axioms;

/// One armed timer.
pub struct TimerView {
    pub tenant: u64,
    pub schedule: ScheduleView,
    pub due_at: u64,
}

/// What a [`TimerTable`] holds: its timers in order, and the tenants whose
/// timer fired and whose execution has not re-armed it yet.
pub struct TimerTableView {
    pub timers: Seq<TimerView>,
    pub in_flight: Set<u64>,
}

/// No two timers belong to the same tenant, and no tenant both has a timer
/// and is in flight.
pub open spec fn table_wf(v: TimerTableView) -> bool {
    &&& forall|i: int, j: int|
        0 <= i < j < v.timers.len() ==> (#[trigger] v.timers[i]).tenant != (#[trigger] v.timers[j]).tenant
    &&& forall|i: int| 0 <= i < v.timers.len() ==> !v.in_flight.contains((#[trigger] v.timers[i]).tenant)
}

/// The tenants that have a timer.
pub open spec fn tenants(ts: Seq<TimerView>) -> Set<u64> {
    Set::new(|id: u64| exists|i: int| 0 <= i < ts.len() && (#[trigger] ts[i]).tenant == id)
}

/// How many timers belong to `id`.
pub open spec fn timer_count(ts: Seq<TimerView>, id: u64) -> nat
    decreases ts.len(),
{
    if ts.len() == 0 {
        0
    } else {
        timer_count(ts.drop_last(), id) + if ts.last().tenant == id { 1nat } else { 0nat }
    }
}

/// The timers of `ts`, in order, but those of `id`.
pub open spec fn without(ts: Seq<TimerView>, id: u64) -> Seq<TimerView>
    decreases ts.len(),
{
    if ts.len() == 0 {
        Seq::empty()
    } else {
        let rest = without(ts.drop_last(), id);
        if ts.last().tenant == id {
            rest
        } else {
            rest.push(ts.last())
        }
    }
}

/// When a timer armed at `now` for `s` is due (saturating at the end of time).
pub open spec fn due_at(s: ScheduleView, now: u64) -> u64 {
    if now + schedule_delay(s, now) > u64::MAX {
        u64::MAX
    } else {
        (now + schedule_delay(s, now)) as u64
    }
}

/// The timers after `s` is armed at `now`: any earlier timer of its tenant is
/// cancelled first.
pub open spec fn insert_spec(ts: Seq<TimerView>, s: ScheduleView, now: u64) -> Seq<TimerView> {
    without(ts, s.guild_id).push(TimerView { tenant: s.guild_id, schedule: s, due_at: due_at(s, now) })
}

/// The timers after a reload from `records` at `now`: each record in turn is
/// armed, skipping those with a zero interval.
pub open spec fn reload_spec(records: Seq<GuildScheduleView>, now: u64) -> Seq<TimerView>
    decreases records.len(),
{
    if records.len() == 0 {
        Seq::empty()
    } else {
        let rest = reload_spec(records.drop_last(), now);
        if records.last().interval == 0 {
            rest
        } else {
            insert_spec(rest, schedule_of(records.last()), now)
        }
    }
}

/// What [`without`] keeps: exactly the timers of other tenants, and no two of
/// one tenant where `ts` had none.
pub proof fn lemma_without(ts: Seq<TimerView>, id: u64)
    ensures
        forall|k: int| 0 <= k < without(ts, id).len() ==> ts.contains(#[trigger] without(ts, id)[k]),
        !tenants(without(ts, id)).contains(id),
        tenants(without(ts, id)) == tenants(ts).remove(id),
        (forall|i: int, j: int| 0 <= i < j < ts.len() ==> (#[trigger] ts[i]).tenant != (#[trigger] ts[j]).tenant)
            ==> (forall|i: int, j: int|
            0 <= i < j < without(ts, id).len() ==> (#[trigger] without(ts, id)[i]).tenant != (
            #[trigger] without(ts, id)[j]).tenant),
    decreases ts.len(),
{
    if ts.len() > 0 {
        let rest = ts.drop_last();
        lemma_without(rest, id);
        let w = without(ts, id);
        let wr = without(rest, id);
        assert forall|k: int| 0 <= k < w.len() implies ts.contains(#[trigger] w[k]) by {
            if k < wr.len() {
                let j = choose|j: int| 0 <= j < rest.len() && rest[j] == wr[k];
                assert(ts[j] == wr[k]);
            } else {
                assert(ts[ts.len() - 1] == w[k]);
            }
        }
        assert forall|x: u64| tenants(w).contains(x) <==> tenants(ts).remove(id).contains(x) by {
            if tenants(w).contains(x) {
                let k = choose|k: int| 0 <= k < w.len() && (#[trigger] w[k]).tenant == x;
                if k < wr.len() {
                    assert(tenants(wr).contains(x));
                } else {
                    assert(ts[ts.len() - 1].tenant == x);
                }
            }
            if tenants(ts).remove(id).contains(x) {
                let i = choose|i: int| 0 <= i < ts.len() && (#[trigger] ts[i]).tenant == x;
                if i < ts.len() - 1 {
                    assert(rest[i].tenant == x);
                    assert(tenants(wr).contains(x));
                    let k = choose|k: int| 0 <= k < wr.len() && (#[trigger] wr[k]).tenant == x;
                    assert(w[k] == wr[k]);
                } else {
                    assert(w[w.len() - 1].tenant == x);
                }
            }
        }
        assert(tenants(w) =~= tenants(ts).remove(id));
        if forall|i: int, j: int| 0 <= i < j < ts.len() ==> (#[trigger] ts[i]).tenant != (#[trigger] ts[j]).tenant {
            assert forall|i: int, j: int| 0 <= i < j < rest.len() implies (#[trigger] rest[i]).tenant != (
            #[trigger] rest[j]).tenant by {
                assert(ts[i] == rest[i] && ts[j] == rest[j]);
            }
            if ts.last().tenant != id {
                assert forall|i: int, j: int| 0 <= i < j < w.len() implies (#[trigger] w[i]).tenant != (
                #[trigger] w[j]).tenant by {
                    if j == w.len() - 1 {
                        let a = choose|a: int| 0 <= a < rest.len() && rest[a] == wr[i];
                        assert(ts[a] == wr[i]);
                        assert(ts[ts.len() - 1] == w[j]);
                    } else {
                        assert(w[i] == wr[i] && w[j] == wr[j]);
                    }
                }
            }
        }
    }
}

/// What [`insert_spec`] arms: the tenants before, with `s`'s own.
pub proof fn lemma_insert(ts: Seq<TimerView>, s: ScheduleView, now: u64)
    ensures
        tenants(insert_spec(ts, s, now)) == tenants(ts).insert(s.guild_id),
        (forall|i: int, j: int| 0 <= i < j < ts.len() ==> (#[trigger] ts[i]).tenant != (#[trigger] ts[j]).tenant)
            ==> (forall|i: int, j: int|
            0 <= i < j < insert_spec(ts, s, now).len() ==> (#[trigger] insert_spec(ts, s, now)[i]).tenant
                != (#[trigger] insert_spec(ts, s, now)[j]).tenant),
{
    lemma_without(ts, s.guild_id);
    let w = without(ts, s.guild_id);
    let r = insert_spec(ts, s, now);
    assert forall|x: u64| tenants(r).contains(x) <==> tenants(ts).insert(s.guild_id).contains(x) by {
        if tenants(r).contains(x) {
            let k = choose|k: int| 0 <= k < r.len() && (#[trigger] r[k]).tenant == x;
            if k < w.len() {
                assert(tenants(w).contains(x));
            }
        }
        if tenants(ts).insert(s.guild_id).contains(x) {
            if x == s.guild_id {
                assert(r[r.len() - 1].tenant == x);
            } else {
                assert(tenants(w).contains(x));
                let k = choose|k: int| 0 <= k < w.len() && (#[trigger] w[k]).tenant == x;
                assert(r[k] == w[k]);
            }
        }
    }
    assert(tenants(r) =~= tenants(ts).insert(s.guild_id));
    if forall|i: int, j: int| 0 <= i < j < ts.len() ==> (#[trigger] ts[i]).tenant != (#[trigger] ts[j]).tenant {
        assert forall|i: int, j: int| 0 <= i < j < r.len() implies (#[trigger] r[i]).tenant != (
        #[trigger] r[j]).tenant by {
            if j == r.len() - 1 {
                assert(r[i] == w[i]);
                assert(tenants(w).contains(w[i].tenant));
            } else {
                assert(r[i] == w[i] && r[j] == w[j]);
            }
        }
    }
}

/// The count of a tenant's timers is at most one in a well-formed table:
/// whatever sequence of inserts, removals, fires and reloads built it, since
/// each of them keeps the table well-formed.
pub proof fn lemma_at_most_one_timer(v: TimerTableView, id: u64)
    requires
        table_wf(v),
    ensures
        timer_count(v.timers, id) <= 1,
{
    lemma_count_unique(v.timers, id);
}

/// A change to the timers: arming a schedule at a time, or cancelling a
/// tenant's timer.
pub enum TimerOp {
    Insert(ScheduleView, u64),
    Remove(u64),
}

/// The timers after `ops` are applied to `ts` in order.
pub open spec fn apply_ops(ts: Seq<TimerView>, ops: Seq<TimerOp>) -> Seq<TimerView>
    decreases ops.len(),
{
    if ops.len() == 0 {
        ts
    } else {
        let next = match ops[0] {
            TimerOp::Insert(s, now) => insert_spec(ts, s, now),
            TimerOp::Remove(id) => without(ts, id),
        };
        apply_ops(next, ops.drop_first())
    }
}

/// At most one timer per tenant: after any sequence of inserts and removals,
/// starting from timers of distinct tenants, no tenant has two timers.
pub proof fn lemma_ops_keep_one_timer(ts: Seq<TimerView>, ops: Seq<TimerOp>, id: u64)
    requires
        forall|i: int, j: int| 0 <= i < j < ts.len() ==> (#[trigger] ts[i]).tenant != (#[trigger] ts[j]).tenant,
    ensures
        timer_count(apply_ops(ts, ops), id) <= 1,
    decreases ops.len(),
{
    if ops.len() == 0 {
        lemma_count_unique(ts, id);
    } else {
        let next = match ops[0] {
            TimerOp::Insert(s, now) => insert_spec(ts, s, now),
            TimerOp::Remove(r) => without(ts, r),
        };
        match ops[0] {
            TimerOp::Insert(s, now) => lemma_insert(ts, s, now),
            TimerOp::Remove(r) => lemma_without(ts, r),
        }
        lemma_ops_keep_one_timer(next, ops.drop_first(), id);
    }
}

proof fn lemma_count_unique(ts: Seq<TimerView>, id: u64)
    requires
        forall|i: int, j: int| 0 <= i < j < ts.len() ==> (#[trigger] ts[i]).tenant != (#[trigger] ts[j]).tenant,
    ensures
        timer_count(ts, id) <= 1,
        timer_count(ts, id) == 0 <==> !tenants(ts).contains(id),
    decreases ts.len(),
{
    if ts.len() > 0 {
        let rest = ts.drop_last();
        assert forall|i: int, j: int| 0 <= i < j < rest.len() implies (#[trigger] rest[i]).tenant != (
        #[trigger] rest[j]).tenant by {
            assert(ts[i] == rest[i] && ts[j] == rest[j]);
        }
        lemma_count_unique(rest, id);
        if ts.last().tenant == id && tenants(rest).contains(id) {
            let i = choose|i: int| 0 <= i < rest.len() && (#[trigger] rest[i]).tenant == id;
            assert(ts[i].tenant == ts[ts.len() - 1].tenant);
        }
        if tenants(ts).contains(id) && !tenants(rest).contains(id) {
            let i = choose|i: int| 0 <= i < ts.len() && (#[trigger] ts[i]).tenant == id;
            if i < ts.len() - 1 {
                assert(rest[i].tenant == id);
            }
        }
        if tenants(rest).contains(id) {
            let i = choose|i: int| 0 <= i < rest.len() && (#[trigger] rest[i]).tenant == id;
            assert(ts[i].tenant == id);
        }
    }
}

#[derive(Clone, Copy)]
struct Timer {
    schedule: Schedule,
    due_at: u64,
}

impl View for Timer {
    type V = TimerView;

    closed spec fn view(&self) -> TimerView {
        TimerView { tenant: self.schedule@.guild_id, schedule: self.schedule@, due_at: self.due_at }
    }
}

spec fn timers_view(ts: Seq<Timer>) -> Seq<TimerView> {
    ts.map_values(|t: Timer| t@)
}

/// The keyed collection of timers, one per tenant.
pub struct TimerTable {
    timers: Vec<Timer>,
    in_flight: HashSet<u64>,
}

impl View for TimerTable {
    type V = TimerTableView;

    closed spec fn view(&self) -> TimerTableView {
        TimerTableView { timers: timers_view(self.timers@), in_flight: self.in_flight@ }
    }
}

impl TimerTable {
    /// An empty table.
    pub fn new() -> (r: Self)
        ensures
            r@.timers.len() == 0,
            r@.in_flight.is_empty(),
            table_wf(r@),
    {
        let r = TimerTable { timers: Vec::new(), in_flight: HashSet::new() };
        assert(r@.timers =~= Seq::<TimerView>::empty());
        r
    }

    /// How many timers are armed.
    pub fn len(&self) -> (r: usize)
        ensures
            r == self@.timers.len(),
    {
        self.timers.len()
    }

    /// Whether `id` has an armed timer.
    pub fn contains(&self, id: u64) -> (r: bool)
        ensures
            r == tenants(self@.timers).contains(id),
    {
        let ghost ts = self@.timers;
        let mut i: usize = 0;
        while i < self.timers.len()
            invariant
                i <= self.timers.len(),
                ts == self@.timers,
                forall|j: int| 0 <= j < i ==> (#[trigger] ts[j]).tenant != id,
            decreases self.timers.len() - i,
        {
            if self.timers[i].schedule.guild_id() == id {
                assert(ts[i as int].tenant == id);
                return true;
            }
            i = i + 1;
        }
        false
    }

    /// Whether `id` fired and has not been re-armed or removed since.
    pub fn is_in_flight(&self, id: u64) -> (r: bool)
        ensures
            r == self@.in_flight.contains(id),
    {
        self.in_flight.contains(&id)
    }

    fn drop_timer(&mut self, id: u64)
        ensures
            final(self)@.timers == without(old(self)@.timers, id),
            final(self)@.in_flight == old(self)@.in_flight,
    {
        let ghost ts = self@.timers;
        let mut kept: Vec<Timer> = Vec::new();
        let mut i: usize = 0;
        while i < self.timers.len()
            invariant
                i <= self.timers.len(),
                ts == timers_view(self.timers@),
                timers_view(kept@) == without(ts.subrange(0, i as int), id),
            decreases self.timers.len() - i,
        {
            let ghost next = ts.subrange(0, i + 1);
            assert(next.drop_last() =~= ts.subrange(0, i as int));
            let t = self.timers[i];
            if t.schedule.guild_id() != id {
                let ghost before = kept@;
                kept.push(t);
                assert(timers_view(kept@) =~= timers_view(before).push(t@));
            }
            i = i + 1;
        }
        assert(ts.subrange(0, i as int) =~= ts);
        self.timers = kept;
    }

    /// Cancels the timer of `id`, if any, and forgets that it is in flight.
    pub fn remove(&mut self, id: u64)
        requires
            table_wf(old(self)@),
        ensures
            final(self)@.timers == without(old(self)@.timers, id),
            final(self)@.in_flight == old(self)@.in_flight.remove(id),
            table_wf(final(self)@),
    {
        self.drop_timer(id);
        self.in_flight.remove(&id);
        proof {
            lemma_without(old(self)@.timers, id);
            let w = self@.timers;
            assert forall|k: int| 0 <= k < w.len() implies !self@.in_flight.contains((#[trigger] w[k]).tenant) by {
                let j = choose|j: int| 0 <= j < old(self)@.timers.len() && old(self)@.timers[j] == w[k];
            }
        }
    }

    /// Arms a timer for `schedule` at `now`, cancelling any earlier timer of
    /// its tenant.
    pub fn insert(&mut self, schedule: Schedule, now: u64)
        requires
            table_wf(old(self)@),
            schedule@.interval > 0,
        ensures
            final(self)@.timers == insert_spec(old(self)@.timers, schedule@, now),
            final(self)@.in_flight == old(self)@.in_flight.remove(schedule@.guild_id),
            table_wf(final(self)@),
    {
        let id = schedule.guild_id();
        let delay = schedule.delay(now);
        let due_at = if delay > u64::MAX - now { u64::MAX } else { now + delay };
        self.remove(id);
        let ghost before = self.timers@;
        let t = Timer { schedule, due_at };
        self.timers.push(t);
        proof {
            assert(timers_view(self.timers@) =~= timers_view(before).push(t@));
            lemma_insert(old(self)@.timers, schedule@, now);
            lemma_without(old(self)@.timers, id);
            let r = self@.timers;
            assert forall|k: int| 0 <= k < r.len() implies !self@.in_flight.contains((#[trigger] r[k]).tenant) by {
                if k < r.len() - 1 {
                    let j = choose|j: int| 0 <= j < old(self)@.timers.len() && old(self)@.timers[j] == r[k];
                }
            }
        }
    }

    /// Re-arms the timer of a finished execution, unless its tenant was
    /// removed (or armed anew) while it ran; says whether it re-armed.
    pub fn rearm(&mut self, schedule: Schedule, now: u64) -> (r: bool)
        requires
            table_wf(old(self)@),
            schedule@.interval > 0,
        ensures
            r == old(self)@.in_flight.contains(schedule@.guild_id),
            r ==> final(self)@.timers == insert_spec(old(self)@.timers, schedule@, now)
                && final(self)@.in_flight == old(self)@.in_flight.remove(schedule@.guild_id),
            !r ==> final(self)@ == old(self)@,
            table_wf(final(self)@),
    {
        if self.in_flight.contains(&schedule.guild_id()) {
            self.insert(schedule, now);
            true
        } else {
            false
        }
    }

    /// Cancels every timer and forgets every execution in flight.
    pub fn clear(&mut self)
        ensures
            final(self)@.timers.len() == 0,
            final(self)@.in_flight.is_empty(),
            table_wf(final(self)@),
    {
        self.timers = Vec::new();
        self.in_flight.clear();
    }

    fn earliest(&self) -> (r: Option<usize>)
        ensures
            match r {
                None => self@.timers.len() == 0,
                Some(i) => i < self@.timers.len() && forall|j: int|
                    0 <= j < self@.timers.len() ==> self@.timers[i as int].due_at <= (
                    #[trigger] self@.timers[j]).due_at,
            },
    {
        if self.timers.len() == 0 {
            return None;
        }
        let ghost ts = self@.timers;
        let mut best: usize = 0;
        let mut i: usize = 1;
        while i < self.timers.len()
            invariant
                1 <= i <= self.timers.len(),
                best < i,
                ts == self@.timers,
                forall|j: int| 0 <= j < i ==> ts[best as int].due_at <= (#[trigger] ts[j]).due_at,
            decreases self.timers.len() - i,
        {
            if self.timers[i].due_at < self.timers[best].due_at {
                best = i;
            }
            i = i + 1;
        }
        Some(best)
    }

    /// When the earliest timer is due, if any timer is armed.
    pub fn next_due(&self) -> (r: Option<u64>)
        ensures
            match r {
                None => self@.timers.len() == 0,
                Some(d) => (exists|i: int| 0 <= i < self@.timers.len() && (#[trigger] self@.timers[i]).due_at == d)
                    && forall|j: int| 0 <= j < self@.timers.len() ==> d <= (#[trigger] self@.timers[j]).due_at,
            },
    {
        match self.earliest() {
            None => None,
            Some(i) => {
                let d = self.timers[i].due_at;
                assert(self@.timers[i as int].due_at == d);
                Some(d)
            },
        }
    }

    /// Fires the earliest timer if it is due at `now`: it leaves the table,
    /// its tenant is marked in flight, and its schedule is returned.
    pub fn pop_due(&mut self, now: u64) -> (r: Option<Schedule>)
        requires
            table_wf(old(self)@),
        ensures
            table_wf(final(self)@),
            match r {
                None => final(self)@ == old(self)@ && forall|j: int|
                    0 <= j < old(self)@.timers.len() ==> now < (#[trigger] old(self)@.timers[j]).due_at,
                Some(s) => (exists|i: int|
                    0 <= i < old(self)@.timers.len() && (#[trigger] old(self)@.timers[i]).schedule == s@
                        && old(self)@.timers[i].due_at <= now && forall|j: int|
                        0 <= j < old(self)@.timers.len() ==> old(self)@.timers[i].due_at <= (
                        #[trigger] old(self)@.timers[j]).due_at)
                    && final(self)@.timers == without(old(self)@.timers, s@.guild_id)
                    && final(self)@.in_flight == old(self)@.in_flight.insert(s@.guild_id),
            },
    {
        let i = match self.earliest() {
            None => return None,
            Some(i) => i,
        };
        let t = self.timers[i];
        if t.due_at > now {
            return None;
        }
        let id = t.schedule.guild_id();
        assert(self@.timers[i as int].schedule == t.schedule@);
        self.drop_timer(id);
        self.in_flight.insert(id);
        proof {
            lemma_without(old(self)@.timers, id);
            let w = self@.timers;
            assert forall|a: int, b: int| 0 <= a < b < w.len() implies (#[trigger] w[a]).tenant != (
            #[trigger] w[b]).tenant by {}
            assert forall|k: int| 0 <= k < w.len() implies !self@.in_flight.contains((#[trigger] w[k]).tenant) by {
                let j = choose|j: int| 0 <= j < old(self)@.timers.len() && old(self)@.timers[j] == w[k];
                assert(tenants(w).contains(w[k].tenant));
            }
        }
        Some(t.schedule)
    }
}

/// The views of a sequence of records.
pub open spec fn records_view(rs: Seq<GuildSchedule>) -> Seq<GuildScheduleView> {
    rs.map_values(|g: GuildSchedule| g@)
}

/// The ids of the records, in order, whose interval is zero.
pub open spec fn zero_interval_ids(records: Seq<GuildScheduleView>) -> Seq<u64>
    decreases records.len(),
{
    if records.len() == 0 {
        Seq::empty()
    } else {
        let rest = zero_interval_ids(records.drop_last());
        if records.last().interval == 0 {
            rest.push(records.last().guild_id)
        } else {
            rest
        }
    }
}

/// A reload arms only tenants that have a record.
pub proof fn lemma_reload_tenants(records: Seq<GuildScheduleView>, now: u64)
    ensures
        forall|id: u64|
            #[trigger] tenants(reload_spec(records, now)).contains(id) ==> exists|i: int|
                0 <= i < records.len() && (#[trigger] records[i]).guild_id == id,
        forall|i: int, j: int|
            0 <= i < j < reload_spec(records, now).len() ==> (#[trigger] reload_spec(records, now)[i]).tenant
                != (#[trigger] reload_spec(records, now)[j]).tenant,
    decreases records.len(),
{
    if records.len() > 0 {
        let rest = records.drop_last();
        lemma_reload_tenants(rest, now);
        let before = reload_spec(rest, now);
        if records.last().interval != 0 {
            lemma_insert(before, schedule_of(records.last()), now);
        }
        assert forall|id: u64| #[trigger] tenants(reload_spec(records, now)).contains(id) implies exists|i: int|
            0 <= i < records.len() && (#[trigger] records[i]).guild_id == id by {
            if tenants(before).contains(id) {
                let i = choose|i: int| 0 <= i < rest.len() && (#[trigger] rest[i]).guild_id == id;
                assert(records[i] == rest[i]);
            } else {
                assert(records[records.len() - 1].guild_id == id);
            }
        }
    }
}

/// What the persistent store holds: one record per tenant id, and the set of
/// ids listed as active.
pub struct StoreView {
    pub records: Map<u64, GuildScheduleView>,
    pub active: Set<u64>,
}

/// The store after a tenant's record and its active-set membership are
/// deleted together.
pub open spec fn store_delete(s: StoreView, id: u64) -> StoreView {
    StoreView { records: s.records.remove(id), active: s.active.remove(id) }
}

/// `records` is what a bulk reload may read from `s`: each one is listed as
/// active and stored under its id.
pub open spec fn readable_from(s: StoreView, records: Seq<GuildScheduleView>) -> bool {
    forall|i: int|
        0 <= i < records.len() ==> s.active.contains((#[trigger] records[i]).guild_id)
            && s.records.contains_key(records[i].guild_id) && s.records[records[i].guild_id] == records[i]
}

/// After an abort removes a tenant's timer and deletes its record, the tenant
/// is in neither the timers nor the store, and no bulk reload of that store
/// arms it again.
pub proof fn lemma_abort_durability(
    timers: TimerTableView,
    store: StoreView,
    id: u64,
    reloaded: Seq<GuildScheduleView>,
    now: u64,
)
    requires
        readable_from(store_delete(store, id), reloaded),
    ensures
        !tenants(without(timers.timers, id)).contains(id),
        !store_delete(store, id).records.contains_key(id),
        !store_delete(store, id).active.contains(id),
        !tenants(reload_spec(reloaded, now)).contains(id),
{
    lemma_without(timers.timers, id);
    lemma_reload_tenants(reloaded, now);
    if tenants(reload_spec(reloaded, now)).contains(id) {
        let i = choose|i: int| 0 <= i < reloaded.len() && (#[trigger] reloaded[i]).guild_id == id;
        assert(store_delete(store, id).active.contains(reloaded[i].guild_id));
    }
}

impl TimerTable {
    /// Replaces every timer by those of `records`, armed in turn at `now`;
    /// records with a zero interval cannot be armed and are skipped. Returns
    /// the ids of the skipped records.
    pub fn reload(&mut self, records: &Vec<GuildSchedule>, now: u64) -> (r: Vec<u64>)
        ensures
            final(self)@.timers == reload_spec(records_view(records@), now),
            final(self)@.in_flight.is_empty(),
            table_wf(final(self)@),
            r@ == zero_interval_ids(records_view(records@)),
    {
        self.clear();
        let ghost recs = records_view(records@);
        let mut skipped: Vec<u64> = Vec::new();
        let mut i: usize = 0;
        assert(self@.timers =~= reload_spec(recs.subrange(0, 0), now));
        while i < records.len()
            invariant
                i <= records.len(),
                recs == records_view(records@),
                self@.timers == reload_spec(recs.subrange(0, i as int), now),
                self@.in_flight.is_empty(),
                table_wf(self@),
                skipped@ == zero_interval_ids(recs.subrange(0, i as int)),
            decreases records.len() - i,
        {
            let ghost next = recs.subrange(0, i + 1);
            assert(next.drop_last() =~= recs.subrange(0, i as int));
            assert(next.last() == records@[i as int]@);
            let record = records[i];
            if record.interval() == 0 {
                skipped.push(record.guild_id());
            } else {
                let schedule = record.to_schedule();
                self.insert(schedule, now);
                assert(self@.in_flight =~= Set::<u64>::empty());
            }
            i = i + 1;
        }
        assert(recs.subrange(0, i as int) =~= recs);
        skipped
    }
}

} // verus!
