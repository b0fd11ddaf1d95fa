use discord_banner_bot::record::{
    active_schedules_key, database_key, decimal_text, parse_decimal, schedule_key, GuildSettings, StoreError,
};
use discord_banner_bot::schedule::{GuildSchedule, ScheduleBuilder};

fn pairs(items: &[(&str, &str)]) -> Vec<(String, String)> {
    items.iter().map(|(k, v)| (k.to_string(), v.to_string())).collect()
}

#[test]
fn decimal_text_of_numbers() {
    assert_eq!(decimal_text(0), "0");
    assert_eq!(decimal_text(7), "7");
    assert_eq!(decimal_text(1234567890), "1234567890");
    assert_eq!(decimal_text(u64::MAX), "18446744073709551615");
}

#[test]
fn parse_decimal_fields() {
    assert_eq!(parse_decimal("0"), Some(0));
    assert_eq!(parse_decimal("42"), Some(42));
    assert_eq!(parse_decimal("007"), Some(7));
    assert_eq!(parse_decimal("18446744073709551615"), Some(u64::MAX));
    assert_eq!(parse_decimal("18446744073709551616"), None);
    assert_eq!(parse_decimal("99999999999999999999x"), None);
    assert_eq!(parse_decimal(""), None);
    assert_eq!(parse_decimal("12a"), None);
    assert_eq!(parse_decimal("-1"), None);
}

#[test]
fn record_fields_layout() {
    let g = GuildSchedule::new(1, 2, 900, 4, 5, 6);
    assert_eq!(
        g.to_fields(),
        pairs(&[
            ("guild_id", "1"),
            ("channel_id", "2"),
            ("interval", "900"),
            ("last_run", "4"),
            ("start_at", "5"),
            ("message_limit", "6"),
        ])
    );
}

#[test]
fn record_round_trip() {
    let g = GuildSchedule::new(u64::MAX, 2, 900, 1_700_000_000, 1_600_000_000, 0);
    let back = GuildSchedule::from_fields(&g.to_fields()).unwrap();
    assert_eq!(back.guild_id(), u64::MAX);
    assert_eq!(back.channel_id(), 2);
    assert_eq!(back.interval(), 900);
    assert_eq!(back.last_run(), 1_700_000_000);
    assert_eq!(back.start_at(), 1_600_000_000);
    assert_eq!(back.message_limit(), 0);
}

#[test]
fn record_read_in_any_order() {
    let fields = pairs(&[
        ("message_limit", "6"),
        ("start_at", "5"),
        ("last_run", "4"),
        ("interval", "3"),
        ("channel_id", "2"),
        ("guild_id", "1"),
    ]);
    let g = GuildSchedule::from_fields(&fields).unwrap();
    assert_eq!((g.guild_id(), g.channel_id(), g.interval()), (1, 2, 3));
    assert_eq!((g.last_run(), g.start_at(), g.message_limit()), (4, 5, 6));
}

#[test]
fn missing_field_is_a_store_error() {
    let fields = pairs(&[("guild_id", "1"), ("channel_id", "2"), ("interval", "3"), ("last_run", "4"), ("start_at", "5")]);
    assert_eq!(GuildSchedule::from_fields(&fields).err(), Some(StoreError::MissingField));
    assert_eq!(GuildSchedule::from_fields(&Vec::new()).err(), Some(StoreError::MissingField));
}

#[test]
fn invalid_field_is_a_store_error() {
    let fields = pairs(&[
        ("guild_id", "1"),
        ("channel_id", "two"),
        ("interval", "3"),
        ("last_run", "4"),
        ("start_at", "5"),
        ("message_limit", "6"),
    ]);
    assert_eq!(GuildSchedule::from_fields(&fields).err(), Some(StoreError::InvalidField));
}

#[test]
fn record_of_schedule_keeps_a_future_start() {
    let s = ScheduleBuilder::new(1, 2, 900).start_at(5_000).message_limit(20).build();
    let g = GuildSchedule::from_schedule_at(&s, 1_000);
    assert_eq!(g.last_run(), 5_000);
    assert_eq!(g.start_at(), 5_000);
    assert_eq!(g.message_limit(), 20);
    let past = ScheduleBuilder::new(1, 2, 900).start_at(500).build();
    let g = GuildSchedule::from_schedule_at(&past, 1_000);
    assert_eq!(g.last_run(), 1_000);
    assert_eq!(g.message_limit(), 0);
    let now_record = GuildSchedule::from_schedule(&past);
    assert!(now_record.last_run() >= 1_000);
}

#[test]
fn schedule_of_record_unsets_zeros() {
    let s = GuildSchedule::new(1, 2, 900, 0, 5, 0).to_schedule();
    assert_eq!(s.last_run(), None);
    assert_eq!(s.message_limit(), None);
    let s = GuildSchedule::new(1, 2, 900, 7, 5, 300).to_schedule();
    assert_eq!(s.last_run(), Some(7));
    assert_eq!(s.message_limit(), Some(300));
    assert_eq!((s.guild_id(), s.channel_id(), s.interval(), s.start_at()), (1, 2, 900, 5));
}

#[test]
fn store_keys() {
    assert_eq!(database_key("bot", "db_version"), "bot:db_version");
    assert_eq!(active_schedules_key("bot"), "bot:active_schedules");
    assert_eq!(schedule_key("bot", 1234), "bot:active_schedule:1234");
}

#[test]
fn guild_settings_fields() {
    let s = GuildSettings { guild_id: 3, notification_channel: 44 };
    assert_eq!(s.to_fields(), pairs(&[("guild_id", "3"), ("notification_channel", "44")]));
}
