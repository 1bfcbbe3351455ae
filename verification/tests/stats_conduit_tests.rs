use fibridge_proxy::stats_conduit::{StageAction, StageEvent, StatsConduit};

#[test]
fn new_stage_has_seen_nothing() {
    let stage = StatsConduit::new(7);
    assert_eq!(stage.request_id(), 7);
    assert_eq!(stage.credit(), 0);
    assert_eq!(stage.total_items(), 0);
    assert_eq!(stage.total_bytes(), 0);
}

#[test]
fn credit_is_passed_on_as_it_comes() {
    let mut stage = StatsConduit::new(0);
    assert_eq!(stage.request(1), StageAction::RequestUpstream(1));
    assert_eq!(stage.request(5), StageAction::RequestUpstream(5));
    assert_eq!(stage.request(0), StageAction::RequestUpstream(0));
    assert_eq!(stage.credit(), 6);
}

#[test]
fn items_are_handed_on_while_there_is_credit() {
    let mut stage = StatsConduit::new(0);
    stage.request(2);
    assert_eq!(stage.write(10), StageAction::Emit);
    assert_eq!(stage.write(20), StageAction::Emit);
    assert_eq!(stage.write(30), StageAction::Discard);
    assert_eq!(stage.credit(), 0);
    assert_eq!(stage.total_items(), 2);
    assert_eq!(stage.total_bytes(), 30);
}

#[test]
fn item_without_credit_is_not_handed_on() {
    let mut stage = StatsConduit::new(0);
    assert_eq!(stage.write(10), StageAction::Discard);
    assert_eq!(stage.total_items(), 0);
    assert_eq!(stage.total_bytes(), 0);
}

#[test]
fn one_unit_at_a_time() {
    let mut stage = StatsConduit::new(0);
    for _ in 0..100 {
        assert_eq!(stage.request(1), StageAction::RequestUpstream(1));
        assert_eq!(stage.write(1024), StageAction::Emit);
        assert_eq!(stage.credit(), 0);
    }
    assert_eq!(stage.total_items(), 100);
    assert_eq!(stage.total_bytes(), 102_400);
}

#[test]
fn end_is_passed_on_once() {
    let mut stage = StatsConduit::new(0);
    stage.request(1);
    assert_eq!(stage.end(), StageAction::EndDownstream);
    assert_eq!(stage.end(), StageAction::Nothing);
    assert_eq!(stage.write(1), StageAction::Discard);
    assert_eq!(stage.request(1), StageAction::Nothing);
}

#[test]
fn cancel_is_passed_on_once_with_the_bytes_so_far() {
    let mut stage = StatsConduit::new(0);
    stage.request(3);
    stage.write(100);
    stage.write(23);
    assert_eq!(stage.cancel(), StageAction::CancelUpstream(123));
    assert_eq!(stage.cancel(), StageAction::Nothing);
    assert_eq!(stage.write(1), StageAction::Discard);
    assert_eq!(stage.request(1), StageAction::Nothing);
    assert_eq!(stage.total_bytes(), 123);
}

#[test]
fn end_and_cancel_do_not_swallow_each_other() {
    let mut stage = StatsConduit::new(0);
    assert_eq!(stage.end(), StageAction::EndDownstream);
    assert_eq!(stage.cancel(), StageAction::CancelUpstream(0));
    let mut stage = StatsConduit::new(0);
    assert_eq!(stage.cancel(), StageAction::CancelUpstream(0));
    assert_eq!(stage.end(), StageAction::EndDownstream);
}

#[test]
fn counters_stop_at_the_top() {
    let mut stage = StatsConduit::new(0);
    stage.request(usize::MAX);
    stage.request(usize::MAX);
    assert_eq!(stage.credit(), u64::MAX);
    stage.write(usize::MAX);
    stage.write(usize::MAX);
    assert_eq!(stage.total_bytes(), u64::MAX);
    assert_eq!(stage.total_items(), 2);
}

/// A small generator of event runs, so that many credit patterns are tried.
fn next(seed: &mut u64) -> u64 {
    *seed = seed.wrapping_mul(6364136223846793005).wrapping_add(1442695040888963407);
    *seed >> 33
}

#[test]
fn never_more_items_than_credit_for_any_pattern() {
    let mut seed = 1u64;
    for _ in 0..300 {
        let mut stage = StatsConduit::new(0);
        let mut granted = 0u64;
        let mut emitted = 0u64;
        let mut ends = 0;
        let mut cancels = 0;
        for _ in 0..200 {
            let event = match next(&mut seed) % 16 {
                0..=4 => StageEvent::Request((next(&mut seed) % 3) as usize),
                5..=13 => StageEvent::Write((next(&mut seed) % 5000) as usize),
                14 => StageEvent::End,
                _ => StageEvent::Cancel,
            };
            let outstanding = granted - emitted;
            match stage.handle(event) {
                StageAction::RequestUpstream(n) => {
                    assert_eq!(event, StageEvent::Request(n));
                    granted += n as u64;
                }
                StageAction::Emit => {
                    assert!(outstanding > 0);
                    emitted += 1;
                }
                StageAction::EndDownstream => ends += 1,
                StageAction::CancelUpstream(_) => cancels += 1,
                StageAction::Discard | StageAction::Nothing => {}
            }
            assert!(emitted <= granted);
            assert_eq!(stage.credit(), granted - emitted);
            assert_eq!(stage.total_items(), emitted);
            assert!(ends <= 1 && cancels <= 1);
        }
    }
}
