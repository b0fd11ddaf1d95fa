use discord_banner_bot::commands::{Command, Scheduler, StartBannerOptions};
use discord_banner_bot::discovery::{find_media_in_channel, media_in_message, Attachment, MessageMedia};
use discord_banner_bot::events::{channel_delete_unschedules, handle_event, EventAction, PlatformEvent};
use discord_banner_bot::notify::{dm_refusal, owner_notice, SendDmKind};
use discord_banner_bot::orchestrator::FailureKind;
use discord_banner_bot::schedule::ScheduleBuilder;
use discord_banner_bot::text::{
    is_allowed_image_type, media_type_is_image, same_text, truncate_to_discord_limit, DISCORD_MESSAGE_CONTENT_LIMIT,
};

fn settings() -> Scheduler {
    Scheduler {
        capacity: 100,
        minimum_interval: 15,
        default_interval: 30,
        maximum_interval: 1440,
        default_message_limit: 200,
        maximum_message_limit: 300,
    }
}

#[test]
fn image_media_types() {
    assert!(media_type_is_image("image/png"));
    assert!(media_type_is_image("IMAGE/PNG"));
    assert!(media_type_is_image("Image/Jpeg"));
    assert!(media_type_is_image("image/gif"));
    assert!(media_type_is_image("image/jpg"));
    assert!(!media_type_is_image("image/webp"));
    assert!(!media_type_is_image("video/mp4"));
    assert!(!media_type_is_image(""));
    assert!(!is_allowed_image_type("IMAGE/PNG"));
    assert!(is_allowed_image_type("image/png"));
    assert!(same_text("abc", "abc"));
    assert!(!same_text("abc", "abd"));
}

#[test]
fn short_content_is_kept() {
    assert_eq!(truncate_to_discord_limit("hello"), "hello");
    let exact = "a".repeat(DISCORD_MESSAGE_CONTENT_LIMIT);
    assert_eq!(truncate_to_discord_limit(&exact), exact.as_str());
}

#[test]
fn long_content_is_truncated_at_a_char_boundary() {
    let long = "a".repeat(2_500);
    assert_eq!(truncate_to_discord_limit(&long).len(), 2_000);
    let mut split = "a".repeat(1_999);
    split.push('é');
    split.push_str("tail");
    let t = truncate_to_discord_limit(&split);
    assert_eq!(t.len(), 1_999);
    assert!(split.starts_with(t));
}

#[test]
fn media_of_a_message() {
    let m = MessageMedia {
        message_id: 7,
        embed_images: vec!["https://e/1.png".to_string()],
        attachments: vec![
            Attachment { url: "https://a/1.png".to_string(), content_type: Some("IMAGE/PNG".to_string()) },
            Attachment { url: "https://a/2.mp4".to_string(), content_type: Some("video/mp4".to_string()) },
            Attachment { url: "https://a/3".to_string(), content_type: None },
        ],
    };
    let found = media_in_message(&m);
    let urls: Vec<&str> = found.iter().map(|c| c.media.as_str()).collect();
    assert_eq!(urls, vec!["https://e/1.png", "https://a/1.png"]);
    assert!(found.iter().all(|c| c.message_id == 7));
}

#[test]
fn media_of_the_first_messages_only() {
    let msg = |id: u64| MessageMedia {
        message_id: id,
        embed_images: vec![format!("https://e/{id}.png")],
        attachments: vec![],
    };
    let messages = vec![msg(3), msg(2), msg(1)];
    let found = find_media_in_channel(&messages, 2);
    let ids: Vec<u64> = found.iter().map(|c| c.message_id).collect();
    assert_eq!(ids, vec![3, 2]);
    assert_eq!(find_media_in_channel(&messages, 10).len(), 3);
    assert_eq!(find_media_in_channel(&messages, 0).len(), 0);
}

#[test]
fn events_decide_the_action() {
    assert_eq!(handle_event(PlatformEvent::Ready, false), EventAction::Initialize);
    assert_eq!(handle_event(PlatformEvent::Ready, true), EventAction::Reload);
    assert_eq!(handle_event(PlatformEvent::Resume, true), EventAction::Reload);
    assert_eq!(handle_event(PlatformEvent::Resume, false), EventAction::Nothing);
    assert_eq!(
        handle_event(PlatformEvent::GuildDelete { guild_id: 4, unavailable: true }, true),
        EventAction::Nothing
    );
    assert_eq!(
        handle_event(PlatformEvent::GuildDelete { guild_id: 4, unavailable: false }, true),
        EventAction::Dequeue { guild_id: 4 }
    );
    assert_eq!(
        handle_event(PlatformEvent::ChannelDelete { guild_id: 4, channel_id: 9 }, true),
        EventAction::CheckChannel { guild_id: 4, channel_id: 9 }
    );
    assert_eq!(handle_event(PlatformEvent::Other, true), EventAction::Nothing);
}

#[test]
fn deleting_the_image_channel_unschedules() {
    let s = ScheduleBuilder::new(4, 9, 900).build();
    assert!(channel_delete_unschedules(&s, 4, 9));
    assert!(!channel_delete_unschedules(&s, 4, 8));
    assert!(!channel_delete_unschedules(&s, 5, 9));
}

#[test]
fn start_options_defaults_and_bounds() {
    let base = || StartBannerOptions::new(settings(), 1, 2);
    let s = base().interval(None).unwrap().message_limit(None).unwrap().to_schedule(1_000);
    assert_eq!(s.interval(), 30 * 60);
    assert_eq!(s.message_limit(), Some(200));
    assert_eq!(s.start_at(), 1_000);
    assert_eq!(base().interval(Some(14)).err(), Some(Command::BelowMinTimeout));
    assert_eq!(base().interval(Some(1441)).err(), Some(Command::AboveMaxTimeout));
    assert!(base().interval(Some(15)).is_ok());
    assert_eq!(base().message_limit(Some(301)).err(), Some(Command::AboveMaxMessageLimit));
    let zero = base().message_limit(Some(0)).unwrap().to_schedule(1_000);
    assert_eq!(zero.message_limit(), None);
}

#[test]
fn start_time_in_the_past_is_refused() {
    let base = || StartBannerOptions::new(settings(), 1, 2);
    assert_eq!(
        base().start_at(Some(999), 1_000).err(),
        Some(Command::StartTimeInThePast { now: 1_000, given: 999 })
    );
    let o = base().start_at(Some(5_000), 1_000).unwrap();
    assert_eq!(o.start_time(1_000), 5_000);
    assert_eq!(o.guild_id(), 1);
    assert_eq!(base().start_at(None, 1_000).unwrap().start_time(1_000), 1_000);
}

#[test]
fn who_cannot_be_messaged() {
    assert!(matches!(dm_refusal(true, false, false), Some(SendDmKind::BotUser)));
    assert!(matches!(dm_refusal(false, true, false), Some(SendDmKind::PseudoUser)));
    assert!(matches!(dm_refusal(false, false, true), Some(SendDmKind::PseudoUser)));
    assert!(dm_refusal(false, false, false).is_none());
}

#[test]
fn owner_notices() {
    assert_eq!(
        owner_notice(FailureKind::OversizeImage, "https://a/big.png"),
        Some("The channel you've set contains an image that is too big for discord. Maximum size is 10mb. The image is: https://a/big.png".to_string())
    );
    assert!(owner_notice(FailureKind::RemotePermission, "").is_some());
    assert!(owner_notice(FailureKind::RemoteNotFound, "").is_some());
    assert!(owner_notice(FailureKind::MissingAnimatedFeature, "x").unwrap().ends_with("The image is: x"));
    assert_eq!(owner_notice(FailureKind::Store, "x"), None);
    assert_eq!(owner_notice(FailureKind::RemoteTransient, "x"), None);
}
