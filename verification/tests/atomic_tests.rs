use tasklist::atomic::{AtomicWrite, Phase, Step};

fn run(ends: &[bool]) -> (Vec<Step>, AtomicWrite) {
    let mut protocol = AtomicWrite::new();
    let mut steps = Vec::new();
    for ok in ends {
        match protocol.next_step() {
            Some(step) => {
                steps.push(step);
                protocol.record(*ok);
            }
            None => break,
        }
    }
    (steps, protocol)
}

#[test]
fn the_steps_come_in_a_fixed_order() {
    let (steps, protocol) = run(&[true, true, true, true, true]);
    assert_eq!(steps, vec![Step::CreateTemp, Step::Lock, Step::Write, Step::Unlock, Step::Rename]);
    assert_eq!(protocol.phase(), Phase::Done);
    assert!(protocol.is_done());
    assert_eq!(protocol.next_step(), None);
}

#[test]
fn a_new_replacement_has_done_nothing() {
    let protocol = AtomicWrite::new();
    assert_eq!(protocol.phase(), Phase::Start);
    assert!(!protocol.is_done());
    assert_eq!(protocol.next_step(), Some(Step::CreateTemp));
}

#[test]
fn a_failed_step_ends_the_replacement_without_a_rename() {
    for failing in 0..4 {
        let mut ends = vec![true; 5];
        ends[failing] = false;
        let (steps, protocol) = run(&ends);
        assert_eq!(steps.len(), failing + 1);
        assert!(!steps.contains(&Step::Rename));
        assert_eq!(protocol.phase(), Phase::Failed);
        assert!(!protocol.is_done());
        assert_eq!(protocol.next_step(), None);
    }
}

#[test]
fn a_lock_that_cannot_be_released_stops_the_rename() {
    let (steps, protocol) = run(&[true, true, true, false, true]);
    assert_eq!(steps, vec![Step::CreateTemp, Step::Lock, Step::Write, Step::Unlock]);
    assert_eq!(protocol.phase(), Phase::Failed);
    assert!(!protocol.is_done());
}

#[test]
fn a_failed_rename_fails_the_replacement() {
    let (steps, protocol) = run(&[true, true, true, true, false]);
    assert_eq!(steps.len(), 5);
    assert_eq!(protocol.phase(), Phase::Failed);
    assert!(!protocol.is_done());
}

#[test]
fn an_ended_replacement_stays_as_it_is() {
    let (_, mut done) = run(&[true, true, true, true, true]);
    done.record(false);
    assert_eq!(done.phase(), Phase::Done);
    let (_, mut failed) = run(&[false]);
    failed.record(true);
    assert_eq!(failed.phase(), Phase::Failed);
}

#[test]
fn every_phase_before_the_rename_is_reached_in_turn() {
    let mut protocol = AtomicWrite::new();
    let expected = [
        Phase::TempCreated,
        Phase::Locked,
        Phase::Written,
        Phase::Unlocked,
        Phase::Done,
    ];
    for phase in expected {
        protocol.record(true);
        assert_eq!(protocol.phase(), phase);
    }
}
