use discord_banner_bot::orchestrator::{
    evaluate_schedule_error, failure_of_status, AttemptState, Decision, FailureKind, MediaWithMessage, ScheduleAction, RETRY_BUDGET,
};

fn candidate(url: &str, id: u64) -> MediaWithMessage {
    MediaWithMessage::new(url.to_string(), id)
}

#[test]
fn classification_of_every_kind() {
    type K = FailureKind;
    type A = ScheduleAction;
    let expected = [
        (K::Store, A::Continue),
        (K::Discovery, A::Continue),
        (K::Transport, A::Continue),
        (K::MissingFeature, A::Abort),
        (K::RemotePermission, A::Abort),
        (K::RemoteNotFound, A::Abort),
        (K::MissingAnimatedFeature, A::RetryNewImage),
        (K::UndeterminedExtension, A::RetryNewImage),
        (K::EmptyImage, A::RetryNewImage),
        (K::OversizeImage, A::RetryNewImage),
        (K::UnknownSizeOverflow, A::RetryNewImage),
        (K::NoCandidateAvailable, A::RetryNewImage),
        (K::Encoding, A::RetryNewImage),
        (K::RemoteTransient, A::RetrySameImage),
        (K::AttemptTimeout, A::RetrySameImage),
    ];
    for (kind, action) in expected {
        assert_eq!(evaluate_schedule_error(kind), action, "{kind:?}");
    }
}

#[test]
fn transient_failure_pins_the_candidate() {
    let found = vec![candidate("https://a/1.png", 1), candidate("https://a/2.png", 2)];
    let mut attempt = AttemptState::new();
    let picked = attempt.select_candidate(&found).unwrap();
    let media = picked.media.clone();
    assert_eq!(attempt.record(Some(picked), Err(FailureKind::RemoteTransient)), Decision::Retry);
    assert_eq!(attempt.pinned().map(|c| c.media), Some(media.clone()));
    for _ in 0..10 {
        assert_eq!(attempt.select_candidate(&found).unwrap().media, media);
    }
    assert_eq!(attempt.retries_remaining(), RETRY_BUDGET - 1);
}

#[test]
fn timeout_retries_same_image() {
    let mut attempt = AttemptState::new();
    let c = candidate("https://a/1.png", 1);
    assert_eq!(attempt.record(Some(c), Err(FailureKind::AttemptTimeout)), Decision::Retry);
    assert_eq!(attempt.pinned().unwrap().message_id, 1);
}

#[test]
fn avoided_candidate_never_picked_again() {
    let found = vec![candidate("https://a/1.png", 1), candidate("https://a/2.png", 2)];
    let mut attempt = AttemptState::new();
    let bad = candidate("https://a/1.png", 1);
    assert_eq!(attempt.record(Some(bad), Err(FailureKind::EmptyImage)), Decision::Retry);
    assert!(attempt.is_avoided(&"https://a/1.png".to_string()));
    assert!(attempt.pinned().is_none());
    for _ in 0..50 {
        assert_eq!(attempt.select_candidate(&found).unwrap().media, "https://a/2.png");
    }
    let offered = attempt.selectable(&found);
    assert_eq!(offered.len(), 1);
    assert_eq!(offered[0].message_id, 2);
}

#[test]
fn no_candidate_left() {
    let found = vec![candidate("https://a/1.png", 1)];
    let mut attempt = AttemptState::new();
    attempt.record(Some(candidate("https://a/1.png", 1)), Err(FailureKind::OversizeImage));
    assert!(attempt.select_candidate(&found).is_none());
    assert!(attempt.select_candidate(&Vec::new()).is_none());
}

#[test]
fn budget_exhausted_falls_through_to_rearm() {
    let mut attempt = AttemptState::new();
    let mut attempts = 0;
    loop {
        attempts += 1;
        let d = attempt.record(None, Err(FailureKind::NoCandidateAvailable));
        if d != Decision::Retry {
            assert_eq!(d, Decision::Rearm);
            break;
        }
    }
    assert_eq!(attempts, RETRY_BUDGET + 1);
    assert_eq!(attempt.retries_remaining(), 0);
    assert_eq!(attempt.avoided_count(), 0);
}

#[test]
fn retries_never_increase() {
    let kinds = [
        FailureKind::OversizeImage,
        FailureKind::RemoteTransient,
        FailureKind::Store,
        FailureKind::EmptyImage,
    ];
    let mut attempt = AttemptState::new();
    let mut last = attempt.retries_remaining();
    for (i, kind) in kinds.iter().enumerate() {
        attempt.record(Some(candidate(&format!("https://a/{i}.png"), i as u64)), Err(*kind));
        assert!(attempt.retries_remaining() <= last);
        last = attempt.retries_remaining();
    }
}

#[test]
fn continue_and_abort_keep_the_state() {
    let mut attempt = AttemptState::new();
    assert_eq!(attempt.record(None, Err(FailureKind::Discovery)), Decision::Rearm);
    assert_eq!(attempt.record(None, Err(FailureKind::RemotePermission)), Decision::Abort);
    assert_eq!(attempt.record(None, Err(FailureKind::RemoteNotFound)), Decision::Abort);
    assert_eq!(attempt.retries_remaining(), RETRY_BUDGET);
}

#[test]
fn http_status_classification() {
    assert_eq!(failure_of_status(403, FailureKind::Discovery), FailureKind::RemotePermission);
    assert_eq!(failure_of_status(404, FailureKind::Discovery), FailureKind::RemoteNotFound);
    assert_eq!(failure_of_status(504, FailureKind::Transport), FailureKind::RemoteTransient);
    assert_eq!(failure_of_status(500, FailureKind::Transport), FailureKind::Transport);
    assert_eq!(evaluate_schedule_error(failure_of_status(504, FailureKind::Transport)), ScheduleAction::RetrySameImage);
}
