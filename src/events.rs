//! What the platform's events do to the schedules.
use vstd::prelude::*;

use crate::schedule::Schedule;

verus! {

/// A platform event that concerns the schedules.
#[derive(Clone, Copy, Debug, PartialEq, Eq, Structural)]
pub enum PlatformEvent {
    /// The connection is ready.
    Ready,
    /// The connection resumed after an interruption.
    Resume,
    /// The bot left a guild, or the guild became unavailable.
    GuildDelete { guild_id: u64, unavailable: bool },
    /// A channel of a guild was deleted.
    ChannelDelete { guild_id: u64, channel_id: u64 },
    /// Anything else.
    Other,
}

/// What to do about an event.
#[derive(Clone, Copy, Debug, PartialEq, Eq, Structural)]
pub enum EventAction {
    /// Set up the scheduler and load every stored schedule.
    Initialize,
    /// Reload every stored schedule.
    Reload,
    /// Stop the schedule of the guild.
    Dequeue { guild_id: u64 },
    /// Stop the schedule of the guild if it reads from the deleted channel.
    CheckChannel { guild_id: u64, channel_id: u64 },
    /// Nothing.
    Nothing,
}

/// The action for each event, given whether the scheduler is set up.
pub open spec fn event_action_spec(event: PlatformEvent, initialized: bool) -> EventAction {
    match event {
        PlatformEvent::Ready => if initialized {
            EventAction::Reload
        } else {
            EventAction::Initialize
        },
        PlatformEvent::Resume => if initialized {
            EventAction::Reload
        } else {
            EventAction::Nothing
        },
        PlatformEvent::GuildDelete { guild_id, unavailable } => if unavailable {
            EventAction::Nothing
        } else {
            EventAction::Dequeue { guild_id }
        },
        PlatformEvent::ChannelDelete { guild_id, channel_id } => EventAction::CheckChannel { guild_id, channel_id },
        PlatformEvent::Other => EventAction::Nothing,
    }
}

/// Decides what an event does: a guild that is only unavailable is kept, one
/// the bot left is dequeued, like an explicit stop.
pub fn handle_event(event: PlatformEvent, initialized: bool) -> (r: EventAction)
    ensures
        r == event_action_spec(event, initialized),
{
    match event {
        PlatformEvent::Ready => {
            if initialized {
                EventAction::Reload
            } else {
                EventAction::Initialize
            }
        },
        PlatformEvent::Resume => {
            if initialized {
                EventAction::Reload
            } else {
                EventAction::Nothing
            }
        },
        PlatformEvent::GuildDelete { guild_id, unavailable } => {
            if unavailable {
                EventAction::Nothing
            } else {
                EventAction::Dequeue { guild_id }
            }
        },
        PlatformEvent::ChannelDelete { guild_id, channel_id } => EventAction::CheckChannel { guild_id, channel_id },
        PlatformEvent::Other => EventAction::Nothing,
    }
}

/// Whether deleting `channel_id` of `guild_id` ends `schedule`: it does when
/// the schedule reads from that channel.
pub fn channel_delete_unschedules(schedule: &Schedule, guild_id: u64, channel_id: u64) -> (r: bool)
    ensures
        r == (schedule@.guild_id == guild_id && schedule@.channel_id == channel_id),
{
    schedule.guild_id() == guild_id && schedule.channel_id() == channel_id
}

} // verus!
