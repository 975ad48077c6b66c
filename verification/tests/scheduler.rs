use compositor_config::scheduler::{aligned_deadline, Phase, ScheduleState};

#[test]
fn first_deadline_is_next_period_boundary() {
    // period 5, now = T with T mod 5 = 3: first deadline is T + 2
    let t: u64 = 1003;
    assert_eq!(aligned_deadline(t, 5), 1005);

    let mut s = ScheduleState::new(5);
    assert_eq!(s.phase, Phase::Idle);
    s.activate(t);
    assert_eq!(s.phase, Phase::Armed);
    assert_eq!(s.next_deadline, t + 2);
}

#[test]
fn deadline_on_boundary_stays_there() {
    assert_eq!(aligned_deadline(1000, 5), 1000);
    assert_eq!(aligned_deadline(0, 5), 0);
    assert_eq!(aligned_deadline(1, 1), 1);
    assert_eq!(aligned_deadline(59, 60), 60);
}

#[test]
fn ticks_stay_exactly_one_period_apart() {
    let mut s = ScheduleState::new(5);
    s.activate(1003);
    assert!(s.begin_ticking());
    assert_eq!(s.phase, Phase::Ticking);
    // re-arming goes by the previous deadline alone, never by when the
    // firing was actually handled
    assert!(s.on_tick(0));
    assert_eq!(s.next_deadline, 1010);
    assert!(s.on_tick(0));
    assert_eq!(s.next_deadline, 1015);
    assert!(s.on_tick(0));
    assert_eq!(s.next_deadline, 1020);
}

#[test]
fn stale_generation_tick_does_nothing() {
    let mut s = ScheduleState::new(5);
    s.activate(1003);
    s.begin_ticking();
    assert_eq!(s.generation, 0);

    // reload: the schedule is rebuilt under the next generation
    s.reconfigure(5, 2004);
    assert_eq!(s.generation, 1);
    assert_eq!(s.phase, Phase::Armed);
    assert_eq!(s.next_deadline, 2005);
    s.begin_ticking();

    // a firing still tagged with the superseded generation is ignored
    let before = s;
    assert!(!s.on_tick(0));
    assert_eq!(s, before);

    // a firing of the live generation works as usual
    assert!(s.on_tick(1));
    assert_eq!(s.next_deadline, 2010);
}

#[test]
fn cancelled_schedule_ignores_ticks() {
    let mut s = ScheduleState::new(5);
    s.activate(1000);
    s.begin_ticking();
    s.cancel();
    assert_eq!(s.phase, Phase::Cancelled);
    let before = s;
    assert!(!s.on_tick(0));
    assert_eq!(s, before);
}

#[test]
fn tick_before_ticking_phase_does_nothing() {
    let mut s = ScheduleState::new(5);
    let before = s;
    assert!(!s.on_tick(0));
    assert_eq!(s, before);
    s.activate(1000);
    let armed = s;
    assert!(!s.on_tick(0));
    assert_eq!(s, armed);
}
