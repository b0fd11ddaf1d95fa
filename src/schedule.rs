//! A tenant's schedule: the in-memory form that drives its timer, and the
//! record that is persisted for it.
use vstd::prelude::*;

use crate::timing::{current_unix_timestamp, initial_delay, initial_delay_spec};

verus! {

/// What a [`Schedule`] holds.
pub struct ScheduleView {
    pub guild_id: u64,
    pub channel_id: u64,
    pub interval: u64,
    pub start_at: u64,
    pub last_run: Option<u64>,
    pub message_limit: Option<usize>,
}

/// The schedule of one tenant while it is active.
#[derive(Clone, Copy, Debug)]
pub struct Schedule {
    guild_id: u64,
    channel_id: u64,
    interval: u64,
    start_at: u64,
    last_run: Option<u64>,
    message_limit: Option<usize>,
}

impl View for Schedule {
    type V = ScheduleView;

    closed spec fn view(&self) -> ScheduleView {
        ScheduleView {
            guild_id: self.guild_id,
            channel_id: self.channel_id,
            interval: self.interval,
            start_at: self.start_at,
            last_run: self.last_run,
            message_limit: self.message_limit,
        }
    }
}

/// The delay before the timer of `s` first fires, when armed at `now`.
pub open spec fn schedule_delay(s: ScheduleView, now: u64) -> int {
    initial_delay_spec(s.start_at, s.last_run, now, s.interval)
}

impl Schedule {
    /// Which guild to change the banner of.
    pub fn guild_id(&self) -> (r: u64)
        ensures
            r == self@.guild_id,
    {
        self.guild_id
    }

    /// Which channel to source images from.
    pub fn channel_id(&self) -> (r: u64)
        ensures
            r == self@.channel_id,
    {
        self.channel_id
    }

    /// How many seconds in between runs.
    pub fn interval(&self) -> (r: u64)
        ensures
            r == self@.interval,
    {
        self.interval
    }

    /// When the schedule is supposed to start.
    pub fn start_at(&self) -> (r: u64)
        ensures
            r == self@.start_at,
    {
        self.start_at
    }

    /// When the schedule last finished running.
    pub fn last_run(&self) -> (r: Option<u64>)
        ensures
            r == self@.last_run,
    {
        self.last_run
    }

    /// How many recent messages are searched for media.
    pub fn message_limit(&self) -> (r: Option<usize>)
        ensures
            r == self@.message_limit,
    {
        self.message_limit
    }

    /// How many seconds `last_run` lies past a whole multiple of the interval.
    pub fn lag(&self) -> (r: Option<u64>)
        requires
            self@.last_run.is_some() ==> self@.interval > 0,
        ensures
            r == (match self@.last_run {
                Some(x) => Some((x % self@.interval) as u64),
                None => None,
            }),
    {
        match self.last_run {
            Some(x) => Some(x % self.interval),
            None => None,
        }
    }

    /// Seconds from `now` until the timer of this schedule first fires: a
    /// future `start_at` is waited for, else the cadence of `last_run` is
    /// kept, else it fires at once.
    pub fn delay(&self, now: u64) -> (r: u64)
        requires
            self@.interval > 0,
        ensures
            r == schedule_delay(self@, now),
    {
        initial_delay(self.start_at, self.last_run, now, self.interval)
    }
}

/// Builds a [`Schedule`].
pub struct ScheduleBuilder {
    guild_id: u64,
    channel_id: u64,
    interval: u64,
    start_at: u64,
    last_run: Option<u64>,
    message_limit: Option<usize>,
}

impl View for ScheduleBuilder {
    type V = ScheduleView;

    closed spec fn view(&self) -> ScheduleView {
        ScheduleView {
            guild_id: self.guild_id,
            channel_id: self.channel_id,
            interval: self.interval,
            start_at: self.start_at,
            last_run: self.last_run,
            message_limit: self.message_limit,
        }
    }
}

impl ScheduleBuilder {
    /// A schedule that starts now, has never run and has no message limit.
    pub fn new(guild_id: u64, channel_id: u64, interval: u64) -> (r: Self)
        ensures
            r@.guild_id == guild_id,
            r@.channel_id == channel_id,
            r@.interval == interval,
            r@.last_run.is_none(),
            r@.message_limit.is_none(),
    {
        ScheduleBuilder {
            guild_id,
            channel_id,
            interval,
            start_at: current_unix_timestamp(),
            last_run: None,
            message_limit: None,
        }
    }

    /// Sets when the schedule starts.
    pub fn start_at(self, start_at: u64) -> (r: Self)
        ensures
            r@ == (ScheduleView { start_at, ..self@ }),
    {
        ScheduleBuilder { start_at, ..self }
    }

    /// Sets how many messages are searched; zero means no limit.
    pub fn message_limit(self, message_limit: usize) -> (r: Self)
        ensures
            r@ == (ScheduleView {
                message_limit: if message_limit == 0 { None } else { Some(message_limit) },
                ..self@
            }),
    {
        let limit = if message_limit == 0 { None } else { Some(message_limit) };
        ScheduleBuilder { message_limit: limit, ..self }
    }

    /// The schedule with the values set so far.
    pub fn build(self) -> (r: Schedule)
        ensures
            r@ == self@,
    {
        Schedule {
            guild_id: self.guild_id,
            channel_id: self.channel_id,
            interval: self.interval,
            start_at: self.start_at,
            last_run: self.last_run,
            message_limit: self.message_limit,
        }
    }
}

/// What a [`GuildSchedule`] holds.
pub struct GuildScheduleView {
    pub guild_id: u64,
    pub channel_id: u64,
    pub interval: u64,
    pub start_at: u64,
    pub last_run: u64,
    pub message_limit: u64,
}

/// How a schedule is stored: every field a plain number, `last_run` always set.
#[derive(Clone, Copy, Debug)]
pub struct GuildSchedule {
    /// The guild's id.
    guild_id: u64,
    /// Channel id to fetch images from.
    channel_id: u64,
    /// How often the schedule runs, in seconds.
    interval: u64,
    /// When to start the schedule, in seconds.
    start_at: u64,
    /// Unix timestamp of the last banner change, in seconds.
    last_run: u64,
    /// How many messages to look into the past for; zero means no limit.
    message_limit: u64,
}

impl View for GuildSchedule {
    type V = GuildScheduleView;

    closed spec fn view(&self) -> GuildScheduleView {
        GuildScheduleView {
            guild_id: self.guild_id,
            channel_id: self.channel_id,
            interval: self.interval,
            start_at: self.start_at,
            last_run: self.last_run,
            message_limit: self.message_limit,
        }
    }
}

/// The record persisted for `s` when it is written at `now`: `last_run` is
/// the later of `start_at` and `now`.
pub open spec fn record_of(s: ScheduleView, now: u64) -> GuildScheduleView {
    GuildScheduleView {
        guild_id: s.guild_id,
        channel_id: s.channel_id,
        interval: s.interval,
        start_at: s.start_at,
        last_run: if s.start_at > now { s.start_at } else { now },
        message_limit: match s.message_limit {
            Some(m) => m as u64,
            None => 0,
        },
    }
}

/// The schedule that a stored record stands for: a zero `last_run` or
/// `message_limit` means unset.
pub open spec fn schedule_of(g: GuildScheduleView) -> ScheduleView {
    ScheduleView {
        guild_id: g.guild_id,
        channel_id: g.channel_id,
        interval: g.interval,
        start_at: g.start_at,
        last_run: if g.last_run == 0 { None } else { Some(g.last_run) },
        message_limit: if g.message_limit == 0 {
            None
        } else if g.message_limit > usize::MAX {
            Some(usize::MAX)
        } else {
            Some(g.message_limit as usize)
        },
    }
}

impl GuildSchedule {
    /// A record with the given fields (note the order: `last_run` before
    /// `start_at`).
    pub fn new(
        guild_id: u64,
        channel_id: u64,
        interval: u64,
        last_run: u64,
        start_at: u64,
        message_limit: u64,
    ) -> (r: Self)
        ensures
            r@ == (GuildScheduleView { guild_id, channel_id, interval, start_at, last_run, message_limit }),
    {
        GuildSchedule { guild_id, channel_id, interval, start_at, last_run, message_limit }
    }

    /// Get the record's guild id.
    pub fn guild_id(&self) -> (r: u64)
        ensures
            r == self@.guild_id,
    {
        self.guild_id
    }

    /// Get the record's channel id.
    pub fn channel_id(&self) -> (r: u64)
        ensures
            r == self@.channel_id,
    {
        self.channel_id
    }

    /// Get the record's interval.
    pub fn interval(&self) -> (r: u64)
        ensures
            r == self@.interval,
    {
        self.interval
    }

    /// Get the record's `last_run`.
    pub fn last_run(&self) -> (r: u64)
        ensures
            r == self@.last_run,
    {
        self.last_run
    }

    /// Get the record's `start_at`.
    pub fn start_at(&self) -> (r: u64)
        ensures
            r == self@.start_at,
    {
        self.start_at
    }

    /// Get the record's message limit.
    pub fn message_limit(&self) -> (r: u64)
        ensures
            r == self@.message_limit,
    {
        self.message_limit
    }

    /// The record to persist for `schedule` when it is written at `now`.
    pub fn from_schedule_at(schedule: &Schedule, now: u64) -> (r: Self)
        ensures
            r@ == record_of(schedule@, now),
    {
        let last_run = if schedule.start_at > now { schedule.start_at } else { now };
        let message_limit: u64 = match schedule.message_limit {
            Some(m) => m as u64,
            None => 0,
        };
        GuildSchedule {
            guild_id: schedule.guild_id,
            channel_id: schedule.channel_id,
            interval: schedule.interval,
            start_at: schedule.start_at,
            last_run,
            message_limit,
        }
    }

    /// The record to persist for `schedule` now, by the machine's clock.
    pub fn from_schedule(schedule: &Schedule) -> (r: Self)
        ensures
            exists|now: u64| r@ == record_of(schedule@, now),
    {
        let now = current_unix_timestamp();
        GuildSchedule::from_schedule_at(schedule, now)
    }

    /// The schedule that this record stands for.
    pub fn to_schedule(&self) -> (r: Schedule)
        ensures
            r@ == schedule_of(self@),
    {
        let last_run = if self.last_run == 0 { None } else { Some(self.last_run) };
        let message_limit = if self.message_limit == 0 {
            None
        } else if self.message_limit > usize::MAX as u64 {
            Some(usize::MAX)
        } else {
            Some(self.message_limit as usize)
        };
        Schedule {
            guild_id: self.guild_id,
            channel_id: self.channel_id,
            interval: self.interval,
            start_at: self.start_at,
            last_run,
            message_limit,
        }
    }
}

} // verus!
