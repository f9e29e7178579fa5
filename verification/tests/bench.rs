use kanils::access::{access_pattern, ordered_keys};
use kanils::bench::{marching, random_get, seq_write, Next, Workload};
use kanils::schedule::{Action, Phase};

fn run_to_end(mut workload: Workload) -> Vec<Action> {
    let mut actions = Vec::new();
    loop {
        match workload.next_action(true) {
            Next::Perform(action) => actions.push(action),
            Next::Done => break,
            Next::Abort => panic!("a run without failures was aborted"),
        }
    }
    assert_eq!(workload.next_action(true), Next::Done);
    actions
}

#[test]
fn sequential_write_syncs_after_every_write() {
    assert_eq!(
        run_to_end(seq_write(3)),
        vec![
            Action::Put(0),
            Action::Sync,
            Action::Put(1),
            Action::Sync,
            Action::Put(2),
            Action::Sync,
        ]
    );
    assert_eq!(run_to_end(seq_write(0)), vec![]);
}

#[test]
fn randomized_read_has_two_phases() {
    let actions = run_to_end(random_get(3));
    assert_eq!(actions.len(), 12);
    assert_eq!(
        actions[..7],
        [
            Action::BeginPhase(Phase::Putting),
            Action::Put(0),
            Action::Put(1),
            Action::Put(2),
            Action::Sync,
            Action::EndPhase(Phase::Putting),
            Action::BeginPhase(Phase::Getting),
        ]
    );
    assert_eq!(actions[10..], [Action::Sync, Action::EndPhase(Phase::Getting)]);
    let mut read: Vec<u64> = actions[7..10]
        .iter()
        .map(|action| match action {
            Action::Get(key) => *key,
            other => panic!("{:?} among the reads", other),
        })
        .collect();
    read.sort();
    assert_eq!(read, vec![0, 1, 2]);
}

#[test]
fn randomized_read_of_nothing_still_syncs_twice() {
    assert_eq!(
        run_to_end(random_get(0)),
        vec![
            Action::BeginPhase(Phase::Putting),
            Action::Sync,
            Action::EndPhase(Phase::Putting),
            Action::BeginPhase(Phase::Getting),
            Action::Sync,
            Action::EndPhase(Phase::Getting),
        ]
    );
}

#[test]
fn randomized_read_visits_each_of_a_thousand_keys_once() {
    let actions = run_to_end(random_get(1000));
    let read: Vec<u64> = actions
        .iter()
        .filter_map(|action| match action {
            Action::Get(key) => Some(*key),
            _ => None,
        })
        .collect();
    assert_eq!(read.len(), 1000);
    let mut seen = vec![0u32; 1000];
    for key in &read {
        seen[*key as usize] += 1;
    }
    assert!(seen.iter().all(|times| *times == 1));
    let written: Vec<u64> = actions
        .iter()
        .filter_map(|action| match action {
            Action::Put(key) => Some(*key),
            _ => None,
        })
        .collect();
    assert_eq!(written, (0..1000).collect::<Vec<u64>>());
}

#[test]
fn an_access_pattern_is_a_shuffled_bijection() {
    let pattern = access_pattern(1000);
    let mut sorted = pattern.clone();
    sorted.sort();
    assert_eq!(sorted, (0..1000).collect::<Vec<u64>>());
    assert_eq!(ordered_keys(1000), sorted);
    // a thousand keys come out in rising order once in 1000! draws
    assert_ne!(pattern, sorted);
    assert_eq!(access_pattern(0), Vec::<u64>::new());
    assert_eq!(access_pattern(1), vec![0]);
}

#[test]
fn marching_reads_back_full_windows_only() {
    let actions = run_to_end(marching(250));
    assert_eq!(actions.len(), 450);
    let mut expected = Vec::new();
    for window in 0..2u64 {
        for key in window * 100..window * 100 + 100 {
            expected.push(Action::Put(key));
        }
        for key in window * 100..window * 100 + 100 {
            expected.push(Action::Get(key));
        }
    }
    for key in 200..250u64 {
        expected.push(Action::Put(key));
    }
    assert_eq!(actions, expected);
    let reads = actions.iter().filter(|action| matches!(action, Action::Get(_))).count();
    assert_eq!(reads, 200);
    assert!(!actions.iter().any(|action| matches!(action, Action::Get(key) if *key >= 200)));
}

#[test]
fn marching_window_edges() {
    assert_eq!(run_to_end(marching(0)), vec![]);
    let short = run_to_end(marching(99));
    assert_eq!(short.len(), 99);
    assert!(short.iter().all(|action| matches!(action, Action::Put(_))));
    let full = run_to_end(marching(100));
    assert_eq!(full.len(), 200);
    assert_eq!(full[99], Action::Put(99));
    assert_eq!(full[100], Action::Get(0));
    assert_eq!(full[199], Action::Get(99));
    let over = run_to_end(marching(101));
    assert_eq!(over.len(), 201);
    assert_eq!(over[200], Action::Put(100));
}

#[test]
fn marching_passes_over_a_failed_read() {
    let mut workload = marching(100);
    for key in 0..100u64 {
        assert_eq!(workload.next_action(true), Next::Perform(Action::Put(key)));
    }
    assert_eq!(workload.next_action(true), Next::Perform(Action::Get(0)));
    assert_eq!(workload.next_action(false), Next::Perform(Action::Get(1)));
    assert_eq!(workload.next_action(false), Next::Perform(Action::Get(2)));
}

#[test]
fn marching_aborts_on_a_failed_write() {
    let mut workload = marching(100);
    assert_eq!(workload.next_action(true), Next::Perform(Action::Put(0)));
    assert_eq!(workload.next_action(true), Next::Perform(Action::Put(1)));
    assert_eq!(workload.next_action(false), Next::Abort);
    assert_eq!(workload.next_action(true), Next::Abort);
}

#[test]
fn sequential_write_aborts_on_a_failed_sync() {
    let mut workload = seq_write(2);
    // the report that comes with the first call is ignored
    assert_eq!(workload.next_action(false), Next::Perform(Action::Put(0)));
    assert_eq!(workload.next_action(true), Next::Perform(Action::Sync));
    assert_eq!(workload.next_action(false), Next::Abort);
    assert_eq!(workload.next_action(true), Next::Abort);
}

#[test]
fn the_last_action_can_still_fail() {
    let mut workload = seq_write(1);
    assert_eq!(workload.next_action(true), Next::Perform(Action::Put(0)));
    assert_eq!(workload.next_action(true), Next::Perform(Action::Sync));
    assert_eq!(workload.next_action(false), Next::Abort);
}

#[test]
fn randomized_read_aborts_on_a_failed_read() {
    let mut workload = random_get(1);
    assert_eq!(workload.next_action(true), Next::Perform(Action::BeginPhase(Phase::Putting)));
    assert_eq!(workload.next_action(true), Next::Perform(Action::Put(0)));
    assert_eq!(workload.next_action(true), Next::Perform(Action::Sync));
    assert_eq!(workload.next_action(true), Next::Perform(Action::EndPhase(Phase::Putting)));
    assert_eq!(workload.next_action(true), Next::Perform(Action::BeginPhase(Phase::Getting)));
    assert_eq!(workload.next_action(true), Next::Perform(Action::Get(0)));
    assert_eq!(workload.next_action(false), Next::Abort);
}
