use discord_banner_bot::schedule::{GuildSchedule, ScheduleBuilder};
use discord_banner_bot::timers::TimerTable;
use discord_banner_bot::timing::{current_unix_timestamp, initial_delay, next_run};

#[test]
fn next_run_waits_for_a_future_start() {
    assert_eq!(next_run(100, 50, 10), 50);
    assert_eq!(next_run(50, 50, 10), 0);
}

#[test]
fn next_run_keeps_the_cadence() {
    assert_eq!(next_run(0, 25, 10), 5);
    assert_eq!(next_run(0, 30, 10), 10);
    assert_eq!(next_run(7, 8, 900), 899);
}

#[test]
fn drift_correction_ignores_missed_intervals() {
    let last_run = 1_000;
    let interval = 900;
    for k in 1..5u64 {
        for d in [0u64, 1, 100, 899] {
            let now = last_run + k * interval + d;
            assert_eq!(initial_delay(0, Some(last_run), now, interval), interval - d);
        }
    }
}

#[test]
fn start_at_takes_precedence() {
    assert_eq!(initial_delay(2_000, Some(1_000), 1_500, 900), 500);
    assert_eq!(initial_delay(2_000, None, 1_500, 900), 500);
}

#[test]
fn no_last_run_fires_at_once() {
    assert_eq!(initial_delay(1_000, None, 1_500, 900), 0);
}

#[test]
fn clock_is_after_the_epoch() {
    assert!(current_unix_timestamp() > 1_600_000_000);
}

#[test]
fn lag_is_last_run_modulo_interval() {
    let record = GuildSchedule::new(1, 2, 60, 125, 0, 0);
    assert_eq!(record.to_schedule().lag(), Some(5));
    let fresh = ScheduleBuilder::new(1, 2, 60).build();
    assert_eq!(fresh.lag(), None);
}

#[test]
fn at_most_one_timer_per_tenant() {
    let mut timers = TimerTable::new();
    let a = ScheduleBuilder::new(1, 10, 60).start_at(100).build();
    let b = ScheduleBuilder::new(1, 11, 120).start_at(500).build();
    let c = ScheduleBuilder::new(2, 20, 60).start_at(300).build();
    timers.insert(a, 0);
    timers.insert(c, 0);
    timers.insert(b, 0);
    assert_eq!(timers.len(), 2);
    assert_eq!(timers.next_due(), Some(300));
    timers.insert(a, 0);
    assert_eq!(timers.len(), 2);
    assert_eq!(timers.next_due(), Some(100));
    timers.remove(1);
    assert_eq!(timers.len(), 1);
    assert!(!timers.contains(1));
    timers.remove(1);
    assert_eq!(timers.len(), 1);
    timers.clear();
    assert_eq!(timers.len(), 0);
    assert_eq!(timers.next_due(), None);
}

#[test]
fn pop_due_fires_the_earliest_due_timer() {
    let mut timers = TimerTable::new();
    timers.insert(ScheduleBuilder::new(1, 10, 60).start_at(200).build(), 0);
    timers.insert(ScheduleBuilder::new(2, 20, 60).start_at(100).build(), 0);
    assert!(timers.pop_due(99).is_none());
    let fired = timers.pop_due(250).unwrap();
    assert_eq!(fired.guild_id(), 2);
    assert!(timers.is_in_flight(2));
    assert!(!timers.contains(2));
    let second = timers.pop_due(250).unwrap();
    assert_eq!(second.guild_id(), 1);
    assert!(timers.pop_due(250).is_none());
}

#[test]
fn rearm_after_removal_is_a_no_op() {
    let mut timers = TimerTable::new();
    let s = ScheduleBuilder::new(5, 50, 60).start_at(0).build();
    timers.insert(s, 0);
    let fired = timers.pop_due(0).unwrap();
    timers.remove(5);
    assert!(!timers.rearm(fired, 10));
    assert_eq!(timers.len(), 0);
}

#[test]
fn rearm_after_a_new_insert_keeps_the_new_timer() {
    let mut timers = TimerTable::new();
    let s = ScheduleBuilder::new(5, 50, 60).start_at(0).build();
    timers.insert(s, 0);
    let fired = timers.pop_due(0).unwrap();
    let fresh = ScheduleBuilder::new(5, 51, 600).start_at(1_000).build();
    timers.insert(fresh, 10);
    assert!(!timers.rearm(fired, 10));
    assert_eq!(timers.next_due(), Some(1_000));
}

#[test]
fn reload_replaces_every_timer_and_skips_zero_intervals() {
    let mut timers = TimerTable::new();
    timers.insert(ScheduleBuilder::new(9, 90, 60).start_at(0).build(), 0);
    let records = vec![
        GuildSchedule::new(1, 10, 900, 1_000, 1_000, 0),
        GuildSchedule::new(2, 20, 0, 1_000, 1_000, 0),
        GuildSchedule::new(3, 30, 900, 5_000, 5_000, 50),
    ];
    let skipped = timers.reload(&records, 2_000);
    assert_eq!(skipped, vec![2]);
    assert_eq!(timers.len(), 2);
    assert!(!timers.contains(9));
    assert!(timers.contains(1));
    assert!(timers.contains(3));
    assert_eq!(timers.next_due(), Some(2_800));
}

#[test]
fn reload_after_abort_does_not_resurrect() {
    let mut timers = TimerTable::new();
    let records = vec![GuildSchedule::new(1, 10, 900, 1_000, 1_000, 0), GuildSchedule::new(2, 20, 900, 1_000, 1_000, 0)];
    timers.reload(&records, 1_500);
    timers.remove(2);
    let remaining: Vec<GuildSchedule> = records.into_iter().filter(|r| r.guild_id() != 2).collect();
    timers.reload(&remaining, 1_600);
    assert!(!timers.contains(2));
    assert!(timers.contains(1));
}

#[test]
fn far_future_due_time_saturates() {
    let mut timers = TimerTable::new();
    timers.insert(ScheduleBuilder::new(1, 1, 60).start_at(u64::MAX).build(), 10);
    assert_eq!(timers.next_due(), Some(u64::MAX));
}
