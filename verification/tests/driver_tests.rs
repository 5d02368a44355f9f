use nbody::driver::{Action, Driver, Phase};
use nbody::schedule::Schedule;

fn driver_of(total_steps: usize, interval: usize) -> Driver {
    match Schedule::new(total_steps, interval) {
        Ok(schedule) => Driver::new(schedule),
        Err(error) => panic!("schedule refused: {:?}", error),
    }
}

/// Runs a driver until it halts and returns the actions it handed out, the
/// final `Halt` left out.
fn actions_of(driver: &mut Driver) -> Vec<Action> {
    let mut actions: Vec<Action> = Vec::new();
    loop {
        let action = driver.next();
        if action == Action::Halt {
            return actions;
        }
        actions.push(action);
    }
}

fn records_of(actions: &[Action]) -> Vec<(usize, usize)> {
    let mut records: Vec<(usize, usize)> = Vec::new();
    for action in actions {
        if let Action::Record { slot, step } = action {
            records.push((*slot, *step));
        }
    }
    records
}

#[test]
fn twenty_steps_sampled_every_five() {
    let mut driver = driver_of(20, 5);
    assert_eq!(driver.schedule().sample_count(), 5);
    assert_eq!(driver.sample_steps().len(), 5);
    let actions = actions_of(&mut driver);
    assert_eq!(records_of(&actions), vec![(0, 0), (1, 5), (2, 10), (3, 15)]);
    assert_eq!(driver.sample_steps(), &vec![0, 5, 10, 15, 0]);
    assert_eq!(driver.step(), 20);
    assert_eq!(driver.phase(), Phase::Completed);

    let dt: f64 = 1.0;
    let written = driver.schedule().written_count();
    let times: Vec<f64> = driver.sample_steps()[..written].iter().map(|step| dt * (*step as f64)).collect();
    assert_eq!(times, vec![0.0, 5.0, 10.0, 15.0]);
}

#[test]
fn twenty_one_steps_sampled_every_five() {
    let mut driver = driver_of(21, 5);
    let actions = actions_of(&mut driver);
    assert_eq!(records_of(&actions), vec![(0, 0), (1, 5), (2, 10), (3, 15), (4, 20)]);
    assert_eq!(driver.sample_steps(), &vec![0, 5, 10, 15, 20]);
}

#[test]
fn whole_run_of_three_steps_sampled_every_two() {
    let mut driver = driver_of(3, 2);
    let actions = actions_of(&mut driver);
    assert_eq!(
        actions,
        vec![
            Action::Center,
            Action::Record { slot: 0, step: 0 },
            Action::Accelerate { step: 0 },
            Action::Kick { step: 0 },
            Action::Drift { step: 0 },
            Action::Accelerate { step: 1 },
            Action::Kick { step: 1 },
            Action::Drift { step: 1 },
            Action::Record { slot: 1, step: 2 },
            Action::Accelerate { step: 2 },
            Action::Kick { step: 2 },
            Action::Drift { step: 2 },
            Action::Persist,
        ]
    );
    assert_eq!(driver.sample_steps(), &vec![0, 2]);
}

#[test]
fn run_without_steps_only_centers_and_persists() {
    let mut driver = driver_of(0, 4);
    assert_eq!(actions_of(&mut driver), vec![Action::Center, Action::Persist]);
    assert_eq!(driver.sample_steps(), &vec![0]);
    assert_eq!(driver.step(), 0);
}

#[test]
fn interval_longer_than_the_run_samples_once() {
    let mut driver = driver_of(3, 7);
    let actions = actions_of(&mut driver);
    assert_eq!(records_of(&actions), vec![(0, 0)]);
    assert_eq!(driver.sample_steps(), &vec![0]);
}

#[test]
fn interval_of_one_samples_every_step() {
    let mut driver = driver_of(4, 1);
    let actions = actions_of(&mut driver);
    assert_eq!(records_of(&actions), vec![(0, 0), (1, 1), (2, 2), (3, 3)]);
    assert_eq!(driver.sample_steps(), &vec![0, 1, 2, 3, 0]);
}

#[test]
fn phases_follow_one_another() {
    let mut driver = driver_of(1, 1);
    assert_eq!(driver.phase(), Phase::Initialized);
    assert_eq!(driver.step(), 0);
    assert_eq!(driver.next(), Action::Center);
    assert_eq!(driver.phase(), Phase::Running);
    assert_eq!(driver.next(), Action::Record { slot: 0, step: 0 });
    assert_eq!(driver.next(), Action::Accelerate { step: 0 });
    assert_eq!(driver.next(), Action::Kick { step: 0 });
    assert_eq!(driver.step(), 0);
    assert_eq!(driver.next(), Action::Drift { step: 0 });
    assert_eq!(driver.step(), 1);
    assert_eq!(driver.phase(), Phase::Running);
    assert_eq!(driver.next(), Action::Persist);
    assert_eq!(driver.phase(), Phase::Completed);
}

#[test]
fn completed_driver_halts_for_good() {
    let mut driver = driver_of(2, 2);
    let _ = actions_of(&mut driver);
    let steps = driver.sample_steps().clone();
    for _ in 0..5 {
        assert_eq!(driver.next(), Action::Halt);
        assert_eq!(driver.phase(), Phase::Completed);
        assert_eq!(driver.step(), 2);
        assert_eq!(driver.sample_steps(), &steps);
    }
}

#[test]
fn run_length_counts_every_action() {
    for (total_steps, interval) in [(20, 5), (21, 5), (0, 1), (1, 1), (17, 3), (9, 10)] {
        let mut driver = driver_of(total_steps, interval);
        let written = driver.schedule().written_count();
        let actions = actions_of(&mut driver);
        assert_eq!(actions.len(), 3 * total_steps + written + 2);
        assert_eq!(records_of(&actions).len(), written);
    }
}

#[test]
fn velocities_are_updated_before_positions_in_every_step() {
    let mut driver = driver_of(17, 3);
    let actions = actions_of(&mut driver);
    let mut expected_step: usize = 0;
    let mut at: usize = 1;
    assert_eq!(actions[0], Action::Center);
    while actions[at] != Action::Persist {
        if let Action::Record { slot, step } = actions[at] {
            assert_eq!(step, expected_step);
            assert_eq!(step, slot * 3);
            at += 1;
        } else {
            assert!(expected_step % 3 != 0);
        }
        assert_eq!(actions[at], Action::Accelerate { step: expected_step });
        assert_eq!(actions[at + 1], Action::Kick { step: expected_step });
        assert_eq!(actions[at + 2], Action::Drift { step: expected_step });
        at += 3;
        expected_step += 1;
    }
    assert_eq!(expected_step, 17);
    assert_eq!(at + 1, actions.len());
}

#[test]
fn time_axis_is_zero_until_written() {
    let mut driver = driver_of(6, 3);
    assert_eq!(driver.sample_steps(), &vec![0, 0, 0]);
    let mut written: usize = 0;
    loop {
        match driver.next() {
            Action::Halt => break,
            Action::Record { slot, step } => {
                assert_eq!(slot, written);
                assert_eq!(driver.sample_steps()[slot], step);
                written += 1;
            }
            _ => {}
        }
        for slot in written..3 {
            assert_eq!(driver.sample_steps()[slot], 0);
        }
    }
    assert_eq!(written, 2);
    assert_eq!(driver.sample_steps(), &vec![0, 3, 0]);
}

#[test]
fn schedule_is_handed_back_unchanged() {
    let driver = driver_of(73048, 36);
    assert_eq!(driver.schedule().total_steps(), 73048);
    assert_eq!(driver.schedule().interval(), 36);
    assert_eq!(driver.sample_steps().len(), 2030);
}

#[test]
fn two_centuries_of_daily_steps_run_to_completion() {
    let mut driver = driver_of(73048, 36);
    let actions = actions_of(&mut driver);
    assert_eq!(actions.len(), 3 * 73048 + 2030 + 2);
    let records = records_of(&actions);
    assert_eq!(records.len(), 2030);
    assert_eq!(records[0], (0, 0));
    assert_eq!(records[1], (1, 36));
    assert_eq!(records[2029], (2029, 73044));
    assert_eq!(driver.sample_steps()[2029], 73044);
    assert_eq!(driver.step(), 73048);
}
