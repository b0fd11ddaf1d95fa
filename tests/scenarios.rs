use discord_banner_bot::orchestrator::{AttemptState, Decision, FailureKind, MediaWithMessage, RETRY_BUDGET};
use discord_banner_bot::notify::owner_notice;
use discord_banner_bot::record::schedule_key;
use discord_banner_bot::schedule::{GuildSchedule, ScheduleBuilder};
use discord_banner_bot::timers::TimerTable;

fn candidates(n: u64) -> Vec<MediaWithMessage> {
    (0..n)
        .map(|i| MediaWithMessage::new(format!("https://cdn.example.com/img{i}.png"), 100 + i))
        .collect()
}

#[test]
fn first_pick_succeeds_and_rearms_for_next_interval() {
    let now: u64 = 1_700_000_000;
    let schedule = ScheduleBuilder::new(1, 10, 900).start_at(now).build();
    let mut timers = TimerTable::new();
    timers.insert(schedule, now);
    assert_eq!(timers.next_due(), Some(now));

    let fired = timers.pop_due(now).expect("due at start");
    assert!(timers.is_in_flight(1));

    let found = candidates(3);
    let mut attempt = AttemptState::new();
    let picked = attempt.select_candidate(&found).expect("three candidates");
    assert!(found.iter().any(|c| c.media == picked.media));
    let decision = attempt.record(Some(picked), Ok(()));
    assert_eq!(decision, Decision::Rearm);
    assert_eq!(attempt.retries_remaining(), RETRY_BUDGET);

    let record = GuildSchedule::from_schedule_at(&fired, now);
    assert_eq!(record.last_run(), now);
    let next = record.to_schedule();
    assert_eq!(next.delay(now), 900);
    assert!(timers.rearm(next, now));
    assert_eq!(timers.next_due(), Some(now + 900));
    assert!(!timers.is_in_flight(1));
}

#[test]
fn two_oversize_images_then_success() {
    let found = candidates(5);
    let mut attempt = AttemptState::new();

    let first = attempt.select_candidate(&found).unwrap();
    let first_media = first.media.clone();
    assert_eq!(attempt.record(Some(first), Err(FailureKind::OversizeImage)), Decision::Retry);

    let second = attempt.select_candidate(&found).unwrap();
    assert_ne!(second.media, first_media);
    let second_media = second.media.clone();
    assert_eq!(attempt.record(Some(second), Err(FailureKind::OversizeImage)), Decision::Retry);

    let third = attempt.select_candidate(&found).unwrap();
    assert_ne!(third.media, first_media);
    assert_ne!(third.media, second_media);
    assert_eq!(attempt.record(Some(third), Ok(())), Decision::Rearm);

    assert_eq!(attempt.avoided_count(), 2);
    assert_eq!(attempt.retries_remaining(), RETRY_BUDGET - 2);
}

#[test]
fn missing_feature_aborts_at_once() {
    let now: u64 = 1_700_000_000;
    let schedule = ScheduleBuilder::new(3, 30, 900).start_at(now).build();
    let mut timers = TimerTable::new();
    timers.insert(schedule, now);
    let fired = timers.pop_due(now).unwrap();

    let found = candidates(2);
    let mut attempt = AttemptState::new();
    let picked = attempt.select_candidate(&found).unwrap();
    let media = picked.media.clone();
    let decision = attempt.record(Some(picked), Err(FailureKind::MissingFeature));
    assert_eq!(decision, Decision::Abort);
    assert_eq!(attempt.retries_remaining(), RETRY_BUDGET);

    timers.remove(fired.guild_id());
    assert!(!timers.contains(3));
    assert!(!timers.is_in_flight(3));
    assert!(!timers.rearm(fired, now));
    assert_eq!(timers.len(), 0);

    assert_eq!(schedule_key("bot", 3), "bot:active_schedule:3");
    let notices: Vec<String> = owner_notice(FailureKind::MissingFeature, &media).into_iter().collect();
    assert_eq!(notices.len(), 1);
    assert!(notices[0].starts_with("Server has lost the required boost level"));
}
