use searchevery::run_state::{
    completed_state, is_running, load_or_default, local_today, started_state, Day, PipelineState,
};

#[test]
fn started_then_completed_loads_today_completed() {
    let today = Day::new(2024, 3, 5).unwrap();
    let mut stored: Option<PipelineState> = None;
    stored = Some(started_state(&today));
    assert!(is_running(stored.as_ref().unwrap()));
    stored = Some(completed_state(&today));
    let st = load_or_default(stored);
    assert_eq!(st.last_day.as_deref(), Some("2024-03-05"));
    assert!(st.completed);
    assert!(!is_running(&st));
}

#[test]
fn nothing_stored_loads_default() {
    let st = load_or_default(None);
    assert!(st.last_day.is_none());
    assert!(!st.completed);
    let d = PipelineState::default();
    assert!(d.last_day.is_none() && !d.completed);
}

#[test]
fn day_formats_zero_padded() {
    assert_eq!(Day::new(7, 1, 9).unwrap().iso(), "0007-01-09");
    assert_eq!(Day::new(9999, 12, 31).unwrap().iso(), "9999-12-31");
    assert!(Day::new(2024, 13, 1).is_none());
    assert!(Day::new(2024, 1, 0).is_none());
    assert!(Day::new(10000, 1, 1).is_none());
    assert!(Day::new(-1, 1, 1).is_none());
}

#[test]
fn today_is_a_valid_day() {
    let d = local_today().unwrap();
    let s = d.iso();
    assert_eq!(s.len(), 10);
    assert_eq!(&s[4..5], "-");
}
