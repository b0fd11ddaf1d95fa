//! Validation of a start request, and the scheduler settings it is checked
//! against.
use vstd::prelude::*;

use crate::schedule::{Schedule, ScheduleBuilder, ScheduleView};

verus! {

/// Bot settings.
pub struct Bot {
    /// Log level.
    pub log_level: String,
    /// Command prefix.
    pub prefix: String,
    /// Token.
    pub token: String,
}

/// Scheduler settings.
#[derive(Clone, Copy, Debug)]
pub struct Scheduler {
    /// How many schedules can run at the same time.
    pub capacity: usize,
    /// Minimum amount of minutes between banner changes.
    pub minimum_interval: u64,
    /// Default amount of minutes between banner changes.
    pub default_interval: u64,
    /// Maximum amount of minutes between banner changes.
    pub maximum_interval: u64,
    /// Default amount of messages to look back for.
    pub default_message_limit: usize,
    /// Maximum amount of messages to look back for.
    pub maximum_message_limit: usize,
}

/// Why a command was refused.
#[derive(Clone, Copy, Debug, PartialEq, Eq, Structural)]
pub enum Command {
    /// The command must be run in a server.
    GuildOnly,
    /// The server has no banner set.
    GuildHasNoBannerSet,
    /// The server lacks the banner feature.
    GuildHasNoBannerFeature,
    /// The interval is below the minimum.
    BelowMinTimeout,
    /// The interval is above the maximum.
    AboveMaxTimeout,
    /// The message limit is zero.
    MessageLimitIszero,
    /// The message limit is above the maximum.
    AboveMaxMessageLimit,
    /// The start time lies in the past.
    StartTimeInThePast { now: u64, given: u64 },
}

/// What a [`StartBannerOptions`] holds.
pub struct StartOptionsView {
    pub guild_id: u64,
    pub channel_id: u64,
    pub interval: u64,
    pub start_at: Option<u64>,
    pub message_limit: usize,
    pub settings: Scheduler,
}

/// The options of a start request, validated one by one.
pub struct StartBannerOptions {
    guild_id: u64,
    channel_id: u64,
    interval: u64,
    start_at: Option<u64>,
    message_limit: usize,
    settings: Scheduler,
}

impl View for StartBannerOptions {
    type V = StartOptionsView;

    closed spec fn view(&self) -> StartOptionsView {
        StartOptionsView {
            guild_id: self.guild_id,
            channel_id: self.channel_id,
            interval: self.interval,
            start_at: self.start_at,
            message_limit: self.message_limit,
            settings: self.settings,
        }
    }
}

/// The interval (in minutes) that a request asks for: the default when it
/// gives none; outside the configured bounds it is refused.
pub open spec fn interval_spec(interval: Option<u64>, settings: Scheduler) -> Result<u64, Command> {
    let i = match interval {
        Some(i) => i,
        None => settings.default_interval,
    };
    if i < settings.minimum_interval {
        Err(Command::BelowMinTimeout)
    } else if i > settings.maximum_interval {
        Err(Command::AboveMaxTimeout)
    } else {
        Ok(i)
    }
}

/// The message limit that a request asks for: the default when it gives
/// none; above the maximum it is refused.
pub open spec fn message_limit_spec(limit: Option<usize>, settings: Scheduler) -> Result<usize, Command> {
    let l = match limit {
        Some(l) => l,
        None => settings.default_message_limit,
    };
    if l > settings.maximum_message_limit {
        Err(Command::AboveMaxMessageLimit)
    } else {
        Ok(l)
    }
}

/// Seconds in `minutes`, saturating.
pub open spec fn minutes_to_seconds(minutes: u64) -> u64 {
    if minutes > u64::MAX / 60 {
        u64::MAX
    } else {
        (minutes * 60) as u64
    }
}

impl StartBannerOptions {
    /// The options before validation: 15 minutes, starting now, 200 messages.
    pub fn new(settings: Scheduler, guild_id: u64, channel_id: u64) -> (r: Self)
        ensures
            r@ == (StartOptionsView {
                guild_id,
                channel_id,
                interval: 15,
                start_at: None,
                message_limit: 200,
                settings,
            }),
    {
        StartBannerOptions { guild_id, channel_id, interval: 15, start_at: None, message_limit: 200, settings }
    }

    /// Sets the interval in minutes, or the default; refuses one outside the
    /// configured bounds.
    pub fn interval(self, interval: Option<u64>) -> (r: Result<Self, Command>)
        ensures
            match interval_spec(interval, self@.settings) {
                Ok(i) => r is Ok && r->Ok_0@ == (StartOptionsView { interval: i, ..self@ }),
                Err(e) => r is Err && r->Err_0 == e,
            },
    {
        let interval = match interval {
            Some(i) => i,
            None => self.settings.default_interval,
        };
        if interval < self.settings.minimum_interval {
            return Err(Command::BelowMinTimeout);
        }
        if interval > self.settings.maximum_interval {
            return Err(Command::AboveMaxTimeout);
        }
        Ok(StartBannerOptions { interval, ..self })
    }

    /// Sets when to start (unix seconds); refuses a time before `now`.
    pub fn start_at(self, start_at: Option<u64>, now: u64) -> (r: Result<Self, Command>)
        ensures
            match start_at {
                None => r is Ok && r->Ok_0@ == self@,
                Some(given) => if given < now {
                    r == Err::<Self, Command>(Command::StartTimeInThePast { now, given })
                } else {
                    r is Ok && r->Ok_0@ == (StartOptionsView { start_at: Some(given), ..self@ })
                },
            },
    {
        match start_at {
            None => Ok(self),
            Some(given) => {
                if given < now {
                    Err(Command::StartTimeInThePast { now, given })
                } else {
                    Ok(StartBannerOptions { start_at: Some(given), ..self })
                }
            },
        }
    }

    /// Sets the message limit, or the default; refuses one above the maximum.
    pub fn message_limit(self, message_limit: Option<usize>) -> (r: Result<Self, Command>)
        ensures
            match message_limit_spec(message_limit, self@.settings) {
                Ok(l) => r is Ok && r->Ok_0@ == (StartOptionsView { message_limit: l, ..self@ }),
                Err(e) => r is Err && r->Err_0 == e,
            },
    {
        let limit = match message_limit {
            Some(l) => l,
            None => self.settings.default_message_limit,
        };
        if limit > self.settings.maximum_message_limit {
            return Err(Command::AboveMaxMessageLimit);
        }
        Ok(StartBannerOptions { message_limit: limit, ..self })
    }

    /// The guild the request is for.
    pub fn guild_id(&self) -> (r: u64)
        ensures
            r == self@.guild_id,
    {
        self.guild_id
    }

    /// The start time, or `now` when none was given.
    pub fn start_time(&self, now: u64) -> (r: u64)
        ensures
            r == match self@.start_at {
                Some(s) => s,
                None => now,
            },
    {
        match self.start_at {
            Some(s) => s,
            None => now,
        }
    }

    /// The schedule that the request starts at `now`: the interval in
    /// seconds, the start time (or `now`), and the message limit.
    pub fn to_schedule(&self, now: u64) -> (r: Schedule)
        ensures
            r@.guild_id == self@.guild_id,
            r@.channel_id == self@.channel_id,
            r@.interval == minutes_to_seconds(self@.interval),
            r@.start_at == match self@.start_at {
                Some(s) => s,
                None => now,
            },
            r@.last_run.is_none(),
            r@.message_limit == if self@.message_limit == 0 {
                None
            } else {
                Some(self@.message_limit)
            },
    {
        let seconds = if self.interval > u64::MAX / 60 { u64::MAX } else { self.interval * 60 };
        let start = self.start_time(now);
        ScheduleBuilder::new(self.guild_id, self.channel_id, seconds).message_limit(self.message_limit).start_at(
            start,
        ).build()
    }
}

} // verus!
