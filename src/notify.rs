//! Notifications to owners: which users cannot be messaged, and the text
//! that tells a tenant's owner why its schedule changed.
use vstd::prelude::*;

use crate::orchestrator::FailureKind;

verus! {

/// Why a direct message could not be sent.
#[derive(Clone, Debug)]
pub enum SendDmKind {
    /// The user does not actually exist.
    PseudoUser,
    /// The user is a bot.
    BotUser,
    /// Anything else.
    Other(String),
}

/// Whether a user can be sent a direct message: bots cannot, nor system or
/// team pseudo-users.
pub fn dm_refusal(is_bot: bool, is_system: bool, is_team_user: bool) -> (r: Option<SendDmKind>)
    ensures
        is_bot ==> r matches Some(SendDmKind::BotUser),
        !is_bot && (is_system || is_team_user) ==> r matches Some(SendDmKind::PseudoUser),
        !is_bot && !is_system && !is_team_user ==> r is None,
{
    if is_bot {
        Some(SendDmKind::BotUser)
    } else if is_system || is_team_user {
        Some(SendDmKind::PseudoUser)
    } else {
        None
    }
}

/// The text that tells a tenant's owner about a failure, if the failure is
/// one the owner must hear of: every one that stops the schedule, and the
/// candidate-specific ones the owner can fix.
pub open spec fn notice_spec(kind: FailureKind, media: Seq<char>) -> Option<Seq<char>> {
    match kind {
        FailureKind::MissingFeature => Some(
            "Server has lost the required boost level. Stopping schedule. You can restart the bot after gaining the required boost level."@,
        ),
        FailureKind::RemotePermission => Some(
            "The bot is missing the permission to change the banner. Stopping schedule."@,
        ),
        FailureKind::RemoteNotFound => Some(
            "The server or its image channel no longer exists. Stopping schedule."@,
        ),
        FailureKind::MissingAnimatedFeature => Some(
            "Tried to set an animated banner but the server does not have the required boost level for animated banners. The image is: "@
                + media,
        ),
        FailureKind::OversizeImage => Some(
            "The channel you've set contains an image that is too big for discord. Maximum size is 10mb. The image is: "@
                + media,
        ),
        _ => None,
    }
}

/// The notice for the owner of a tenant whose attempt with `media` failed
/// with `kind`.
pub fn owner_notice(kind: FailureKind, media: &str) -> (r: Option<String>)
    ensures
        match r {
            Some(t) => notice_spec(kind, media@) == Some(t@),
            None => notice_spec(kind, media@).is_none(),
        },
{
    match kind {
        FailureKind::MissingFeature => Some(
            String::from_str(
                "Server has lost the required boost level. Stopping schedule. You can restart the bot after gaining the required boost level.",
            ),
        ),
        FailureKind::RemotePermission => Some(
            String::from_str("The bot is missing the permission to change the banner. Stopping schedule."),
        ),
        FailureKind::RemoteNotFound => Some(
            String::from_str("The server or its image channel no longer exists. Stopping schedule."),
        ),
        FailureKind::MissingAnimatedFeature => {
            let mut t = String::from_str(
                "Tried to set an animated banner but the server does not have the required boost level for animated banners. The image is: ",
            );
            t.append(media);
            Some(t)
        },
        FailureKind::OversizeImage => {
            let mut t = String::from_str(
                "The channel you've set contains an image that is too big for discord. Maximum size is 10mb. The image is: ",
            );
            t.append(media);
            Some(t)
        },
        _ => None,
    }
}

} // verus!
