use calendar_indonesia::api_response::ApiResponse;
use calendar_indonesia::config::Config;
use calendar_indonesia::date_utils::Date;
use calendar_indonesia::holiday_scheduler::{
    scheduler_step, SchedulerAction, SchedulerEvent, SchedulerState, WAKE_MINUTE,
};

fn date(y: i32, m: u32, d: u32) -> Date {
    Date::new(y, m, d).expect("valid date")
}

#[test]
fn wake_on_new_year_fires_exactly_once() {
    // Fixed clock sequence: the first wake lands on January 1.
    let jan1 = date(2025, 1, 1);
    let (state, action) = scheduler_step(SchedulerState::Sleeping, SchedulerEvent::Woke(jan1));
    assert!(matches!(state, SchedulerState::Firing));
    match action {
        SchedulerAction::Refresh(year) => assert_eq!(year, 2025),
        _ => panic!("expected a refresh"),
    }
    // The refresh finishes; the loop re-arms for the next day, January 2.
    let (state, action) = scheduler_step(state, SchedulerEvent::Finished(jan1, true));
    assert!(matches!(state, SchedulerState::Sleeping));
    match action {
        SchedulerAction::Sleep(next) => assert_eq!(next, date(2025, 1, 2)),
        _ => panic!("expected a sleep"),
    }
    // The next wake, within the same 24-hour cycle's follow-up, does not fire.
    let (state, action) = scheduler_step(state, SchedulerEvent::Woke(date(2025, 1, 2)));
    assert!(matches!(state, SchedulerState::Sleeping));
    match action {
        SchedulerAction::Sleep(next) => assert_eq!(next, date(2025, 1, 3)),
        _ => panic!("fired twice for one boundary"),
    }
}

#[test]
fn ordinary_wake_just_rearms() {
    let (state, action) =
        scheduler_step(SchedulerState::Sleeping, SchedulerEvent::Woke(date(2024, 12, 31)));
    assert!(matches!(state, SchedulerState::Sleeping));
    match action {
        SchedulerAction::Sleep(next) => assert_eq!(next, date(2025, 1, 1)),
        _ => panic!("expected a sleep"),
    }
}

#[test]
fn refresh_outcome_is_swallowed() {
    let jan1 = date(2025, 1, 1);
    let (ok_state, ok_action) =
        scheduler_step(SchedulerState::Firing, SchedulerEvent::Finished(jan1, true));
    let (err_state, err_action) =
        scheduler_step(SchedulerState::Firing, SchedulerEvent::Finished(jan1, false));
    assert!(matches!(ok_state, SchedulerState::Sleeping));
    assert!(matches!(err_state, SchedulerState::Sleeping));
    match (ok_action, err_action) {
        (SchedulerAction::Sleep(a), SchedulerAction::Sleep(b)) => assert_eq!(a, b),
        _ => panic!("both outcomes must re-arm the same way"),
    }
}

#[test]
fn wake_minute_is_one_past_midnight() {
    assert_eq!(WAKE_MINUTE, 1);
}

#[test]
fn api_response_envelopes() {
    let ok: ApiResponse<Vec<u32>> = ApiResponse::success(vec![1, 2], "done");
    assert_eq!(ok.code, 200);
    assert_eq!(ok.message, "done");
    assert_eq!(ok.data, vec![1, 2]);
    assert_eq!(ok.transaction_id.len(), 36);
    let err: ApiResponse<String> = ApiResponse::error(404, "missing", String::new());
    assert_eq!(err.code, 404);
    assert_eq!(err.message, "missing");
    assert_eq!(err.data, "");
    assert_ne!(ok.transaction_id, err.transaction_id);
}

#[test]
fn config_defaults() {
    let c = Config::defaults();
    assert_eq!(c.host, "127.0.0.1");
    assert_eq!(c.port, "8080");
    assert_eq!(c.data_dir, "data");
    let custom = Config::new("0.0.0.0".to_string(), "3000".to_string(), "/var/cache".to_string());
    assert_eq!(custom.host, "0.0.0.0");
    assert_eq!(custom.port, "3000");
    assert_eq!(custom.data_dir, "/var/cache");
}
