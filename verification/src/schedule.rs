//! What each benchmark asks of the engine, and in which order.
//!
//! A schedule is the whole run of a benchmark written down as a sequence of
//! actions. Nothing here executes one: the definitions say what the runs are,
//! and the lemmas say where in a run each action stands.

use crate::access::is_access_pattern;
use crate::access::lemma_access_pattern_is_bijection;
use vstd::prelude::*;

verus! {

/// Keys that the marching benchmark writes before it reads them back.
pub const WINDOW: u64 = 100;

/// A timed stretch of a benchmark.
#[derive(Clone, Copy, Debug, PartialEq, Eq, Structural)]
pub enum Phase {
    /// Every key is written.
    Putting,
    /// Every key is read.
    Getting,
}

/// One thing for the caller to do.
#[derive(Clone, Copy, Debug, PartialEq, Eq, Structural)]
pub enum Action {
    /// Start the clock and the progress display of a phase.
    BeginPhase(Phase),
    /// Write the key with a payload of zero bytes of the record size.
    Put(u64),
    /// Read the key.
    Get(u64),
    /// Have the engine flush its journal.
    Sync,
    /// Stop the clock and the progress display of a phase.
    EndPhase(Phase),
}

/// Writes of the keys `from..to`, in rising order.
pub open spec fn puts(from: int, to: int) -> Seq<Action> {
    Seq::new((to - from) as nat, |i: int| Action::Put((from + i) as u64))
}

/// Reads of the keys `from..to`, in rising order.
pub open spec fn gets(from: int, to: int) -> Seq<Action> {
    Seq::new((to - from) as nat, |i: int| Action::Get((from + i) as u64))
}

/// Reads of the keys of `pattern`, in its order.
pub open spec fn reads_of(pattern: Seq<u64>) -> Seq<Action> {
    Seq::new(pattern.len(), |i: int| Action::Get(pattern[i]))
}

/// The sequential write: each key is written and the journal flushed at
/// once, before the next key.
pub open spec fn seq_write_schedule(count: nat) -> Seq<Action>
    decreases count,
{
    if count == 0 {
        Seq::empty()
    } else {
        seq_write_schedule((count - 1) as nat).push(Action::Put((count - 1) as u64)).push(
            Action::Sync,
        )
    }
}

/// The randomized read: a phase that writes every key and flushes once, then
/// a phase that reads every key in the order of `pattern` and flushes once.
pub open spec fn random_get_schedule(count: nat, pattern: Seq<u64>) -> Seq<Action> {
    seq![Action::BeginPhase(Phase::Putting)] + puts(0, count as int) + seq![
        Action::Sync,
        Action::EndPhase(Phase::Putting),
        Action::BeginPhase(Phase::Getting),
    ] + reads_of(pattern) + seq![Action::Sync, Action::EndPhase(Phase::Getting)]
}

/// The first `windows` full windows of the marching benchmark: a window's
/// keys are written, then read back in the order they were written.
pub open spec fn marching_windows(windows: nat) -> Seq<Action>
    decreases windows,
{
    if windows == 0 {
        Seq::empty()
    } else {
        marching_windows((windows - 1) as nat) + puts(WINDOW * (windows - 1), WINDOW * windows)
            + gets(WINDOW * (windows - 1), WINDOW * windows)
    }
}

/// The marching benchmark: as many full windows as `count` holds, then the
/// writes of the keys that are left, which are never read.
pub open spec fn marching_schedule(count: nat) -> Seq<Action> {
    let full = count / (WINDOW as nat);
    marching_windows(full) + puts(WINDOW * full, count as int)
}

/// The action at place `at` of a sequential write.
pub open spec fn seq_write_action(at: int) -> Action {
    if at % 2 == 0 {
        Action::Put((at / 2) as u64)
    } else {
        Action::Sync
    }
}

/// The action at place `at` of a marching benchmark.
pub open spec fn marching_action(at: int) -> Action {
    let window = at / (2 * WINDOW);
    let within = at % (2 * WINDOW);
    if within < WINDOW {
        Action::Put((WINDOW * window + within) as u64)
    } else {
        Action::Get((WINDOW * window + within - WINDOW) as u64)
    }
}

/// The action at place `at` of a randomized read.
pub open spec fn random_get_action(count: nat, pattern: Seq<u64>, at: int) -> Action {
    if at == 0 {
        Action::BeginPhase(Phase::Putting)
    } else if at <= count {
        Action::Put((at - 1) as u64)
    } else if at == count + 1 {
        Action::Sync
    } else if at == count + 2 {
        Action::EndPhase(Phase::Putting)
    } else if at == count + 3 {
        Action::BeginPhase(Phase::Getting)
    } else if at < count + 4 + pattern.len() {
        Action::Get(pattern[at - count - 4])
    } else if at == count + 4 + pattern.len() {
        Action::Sync
    } else {
        Action::EndPhase(Phase::Getting)
    }
}

/// A sequential write of `count` keys has two actions for each key, the
/// write at the even place and the flush after it.
pub proof fn lemma_seq_write_places(count: nat)
    ensures
        seq_write_schedule(count).len() == 2 * count,
        forall|at: int|
            0 <= at < 2 * count ==> #[trigger] seq_write_schedule(count)[at] == seq_write_action(
                at,
            ),
    decreases count,
{
    if count > 0 {
        lemma_seq_write_places((count - 1) as nat);
    }
}

/// The full windows of a marching benchmark take two hundred places each:
/// a hundred writes, then the reads of the same keys.
pub proof fn lemma_marching_windows_places(windows: nat)
    ensures
        marching_windows(windows).len() == 2 * WINDOW * windows,
        forall|at: int|
            0 <= at < 2 * WINDOW * windows ==> #[trigger] marching_windows(windows)[at]
                == marching_action(at),
    decreases windows,
{
    if windows > 0 {
        lemma_marching_windows_places((windows - 1) as nat);
    }
}

/// A marching benchmark of `count` keys has a place for each write and a
/// place for each key of a full window to be read.
pub proof fn lemma_marching_places(count: nat)
    ensures
        marching_schedule(count).len() == count + WINDOW * (count / (WINDOW as nat)),
        forall|at: int|
            0 <= at < count + WINDOW * (count / (WINDOW as nat)) ==> #[trigger] marching_schedule(
                count,
            )[at] == marching_action(at),
{
    let full: nat = count / (WINDOW as nat);
    let windows = marching_windows(full);
    let rest = puts(WINDOW * full, count as int);
    lemma_marching_windows_places(full);
    assert(windows.len() == 200 * full);
    assert(100 * full <= count < 100 * full + 100);
    assert(rest.len() == count - 100 * full);
    assert(marching_schedule(count) == windows + rest);
    assert forall|at: int| 0 <= at < count + WINDOW * full implies #[trigger] marching_schedule(
        count,
    )[at] == marching_action(at) by {
        if at < windows.len() {
            assert((windows + rest)[at] == windows[at]);
        } else {
            let within: int = at - 200 * full;
            assert(0 <= within < 100);
            assert((windows + rest)[at] == rest[within]);
            assert(at / 200 == full && at % 200 == within);
        }
    }
}

/// A randomized read of `count` keys has a place for each write, a place
/// for each entry of the pattern, and six more.
pub proof fn lemma_random_get_places(count: nat, pattern: Seq<u64>)
    ensures
        random_get_schedule(count, pattern).len() == count + pattern.len() + 6,
        forall|at: int|
            0 <= at < count + pattern.len() + 6 ==> #[trigger] random_get_schedule(
                count,
                pattern,
            )[at] == random_get_action(count, pattern, at),
{
}

/// `action` stands at place `at` of `run` and nowhere else.
pub open spec fn is_only_place(run: Seq<Action>, action: Action, at: int) -> bool {
    &&& 0 <= at < run.len()
    &&& run[at] == action
    &&& forall|other: int| 0 <= other < run.len() && #[trigger] run[other] == action ==> other == at
}

/// `action` is asked for exactly once in `run`.
pub open spec fn occurs_once(run: Seq<Action>, action: Action) -> bool {
    exists|at: int| is_only_place(run, action, at)
}

/// Keys are written in strictly rising order.
pub open spec fn writes_rise(run: Seq<Action>) -> bool {
    forall|early: int, late: int|
        0 <= early < late < run.len() && (#[trigger] run[early]) is Put && (#[trigger] run[late])
            is Put ==> run[early]->Put_0 < run[late]->Put_0
}

/// Keys are read in strictly rising order, which is the order of the writes.
pub open spec fn reads_rise(run: Seq<Action>) -> bool {
    forall|early: int, late: int|
        0 <= early < late < run.len() && (#[trigger] run[early]) is Get && (#[trigger] run[late])
            is Get ==> run[early]->Get_0 < run[late]->Get_0
}

/// No key is read before it has been written.
pub open spec fn reads_follow_writes(run: Seq<Action>) -> bool {
    forall|read: int|
        0 <= read < run.len() && (#[trigger] run[read]) is Get ==> exists|write: int|
            0 <= write < read && #[trigger] run[write] == Action::Put(run[read]->Get_0)
}

/// The sequential write writes each of its keys exactly once, in rising
/// order, flushes the journal right after each write, and reads nothing.
pub proof fn lemma_seq_write_run(count: nat)
    requires
        count <= u64::MAX,
    ensures
        forall|key: u64|
            key < count ==> #[trigger] occurs_once(seq_write_schedule(count), Action::Put(key)),
        forall|key: u64|
            key >= count ==> !(#[trigger] seq_write_schedule(count).contains(Action::Put(key))),
        forall|key: u64| !(#[trigger] seq_write_schedule(count).contains(Action::Get(key))),
        forall|at: int|
            0 <= at < seq_write_schedule(count).len() && (#[trigger] seq_write_schedule(
                count,
            )[at]) is Put ==> at + 1 < seq_write_schedule(count).len() && seq_write_schedule(
                count,
            )[at + 1] == Action::Sync,
        writes_rise(seq_write_schedule(count)),
{
    let run = seq_write_schedule(count);
    lemma_seq_write_places(count);
    assert forall|key: u64| key < count implies #[trigger] occurs_once(run, Action::Put(key)) by {
        assert(run[2 * key] == seq_write_action(2 * key));
        assert(is_only_place(run, Action::Put(key), 2 * key));
    }
    assert forall|key: u64| key >= count implies !(#[trigger] run.contains(Action::Put(key))) by {
        if run.contains(Action::Put(key)) {
            let at = choose|at: int| 0 <= at < run.len() && run[at] == Action::Put(key);
            assert(run[at] == seq_write_action(at));
        }
    }
    assert forall|key: u64| !(#[trigger] run.contains(Action::Get(key))) by {
        if run.contains(Action::Get(key)) {
            let at = choose|at: int| 0 <= at < run.len() && run[at] == Action::Get(key);
            assert(run[at] == seq_write_action(at));
        }
    }
    assert forall|at: int| 0 <= at < run.len() && (#[trigger] run[at]) is Put implies at + 1
        < run.len() && run[at + 1] == Action::Sync by {
        assert(run[at] == seq_write_action(at));
        assert(run[at + 1] == seq_write_action(at + 1));
    }
}

/// The randomized read writes each of its keys exactly once, in rising
/// order, and reads each exactly once, after all the writes. It touches no
/// other key.
pub proof fn lemma_random_get_run(count: nat, pattern: Seq<u64>)
    requires
        count <= u64::MAX,
        is_access_pattern(pattern, count),
    ensures
        forall|key: u64|
            key < count ==> #[trigger] occurs_once(
                random_get_schedule(count, pattern),
                Action::Put(key),
            ),
        forall|key: u64|
            key < count ==> #[trigger] occurs_once(
                random_get_schedule(count, pattern),
                Action::Get(key),
            ),
        forall|key: u64|
            key >= count ==> !(#[trigger] random_get_schedule(count, pattern).contains(
                Action::Put(key),
            )),
        forall|key: u64|
            key >= count ==> !(#[trigger] random_get_schedule(count, pattern).contains(
                Action::Get(key),
            )),
        writes_rise(random_get_schedule(count, pattern)),
        reads_follow_writes(random_get_schedule(count, pattern)),
{
    let run = random_get_schedule(count, pattern);
    lemma_random_get_places(count, pattern);
    lemma_access_pattern_is_bijection(pattern, count);
    assert forall|key: u64| key < count implies #[trigger] occurs_once(run, Action::Put(key)) by {
        assert(run[key + 1] == random_get_action(count, pattern, key + 1));
        assert forall|other: int|
            0 <= other < run.len() && #[trigger] run[other] == Action::Put(key) implies other == key
            + 1 by {
            assert(run[other] == random_get_action(count, pattern, other));
        }
        assert(is_only_place(run, Action::Put(key), key + 1));
    }
    assert forall|key: u64| key < count implies #[trigger] occurs_once(run, Action::Get(key)) by {
        assert(pattern.contains(key));
        let entry = choose|entry: int| 0 <= entry < pattern.len() && pattern[entry] == key;
        let at = count + 4 + entry;
        assert(run[at] == random_get_action(count, pattern, at));
        assert forall|other: int|
            0 <= other < run.len() && #[trigger] run[other] == Action::Get(key) implies other
            == at by {
            assert(run[other] == random_get_action(count, pattern, other));
            assert(pattern[other - count - 4] == pattern[entry]);
        }
        assert(is_only_place(run, Action::Get(key), at));
    }
    assert forall|key: u64| key >= count implies !(#[trigger] run.contains(Action::Put(key))) by {
        if run.contains(Action::Put(key)) {
            let at = choose|at: int| 0 <= at < run.len() && run[at] == Action::Put(key);
            assert(run[at] == random_get_action(count, pattern, at));
        }
    }
    assert forall|key: u64| key >= count implies !(#[trigger] run.contains(Action::Get(key))) by {
        if run.contains(Action::Get(key)) {
            let at = choose|at: int| 0 <= at < run.len() && run[at] == Action::Get(key);
            assert(run[at] == random_get_action(count, pattern, at));
            assert(pattern[at - count - 4] < count);
        }
    }
    assert forall|early: int, late: int|
        0 <= early < late < run.len() && (#[trigger] run[early]) is Put && (#[trigger] run[late])
            is Put implies run[early]->Put_0 < run[late]->Put_0 by {
        assert(run[early] == random_get_action(count, pattern, early));
        assert(run[late] == random_get_action(count, pattern, late));
    }
    assert forall|read: int| 0 <= read < run.len() && (#[trigger] run[read]) is Get implies exists|
        write: int,
    |
        0 <= write < read && #[trigger] run[write] == Action::Put(run[read]->Get_0) by {
        assert(run[read] == random_get_action(count, pattern, read));
        let key = pattern[read - count - 4];
        assert(key < count);
        assert(run[key + 1] == random_get_action(count, pattern, key + 1));
    }
}

/// The place of the write of `key` in a marching benchmark.
pub open spec fn marching_write_place(key: u64) -> int {
    2 * WINDOW * (key / WINDOW) + key % WINDOW
}

/// The place of the read of `key` in a marching benchmark.
pub open spec fn marching_read_place(key: u64) -> int {
    2 * WINDOW * (key / WINDOW) + WINDOW + key % WINDOW
}

/// The keys of a marching benchmark that are read back: those of its full
/// windows.
pub open spec fn marching_keys_read(count: nat) -> int {
    WINDOW * (count / (WINDOW as nat))
}

/// The action at one place of a marching benchmark, with the bounds on its
/// key spelled out.
proof fn lemma_marching_place(count: nat, at: int)
    requires
        0 <= at < count + 100 * (count / 100),
    ensures
        marching_schedule(count).len() == count + 100 * (count / 100),
        marching_schedule(count)[at] == marching_action(at),
        at % 200 < 100 ==> 100 * (at / 200) + at % 200 < count,
        at % 200 >= 100 ==> 100 * (at / 200) + at % 200 - 100 < 100 * (count / 100),
{
    lemma_marching_places(count);
    assert(marching_schedule(count)[at] == marching_action(at));
}

/// The marching benchmark writes each of its keys exactly once and no other
/// key, in rising order.
pub proof fn lemma_marching_writes(count: nat)
    requires
        count <= u64::MAX,
    ensures
        forall|key: u64|
            key < count ==> #[trigger] is_only_place(
                marching_schedule(count),
                Action::Put(key),
                marching_write_place(key),
            ),
        forall|key: u64|
            key >= count ==> !(#[trigger] marching_schedule(count).contains(Action::Put(key))),
        writes_rise(marching_schedule(count)),
{
    let run = marching_schedule(count);
    assert(run.len() == count + 100 * (count / 100)) by {
        lemma_marching_places(count);
    }
    assert forall|key: u64| key < count implies #[trigger] is_only_place(
        run,
        Action::Put(key),
        marching_write_place(key),
    ) by {
        let at: int = 200 * (key / 100) + key % 100;
        assert(marching_write_place(key) == at);
        lemma_marching_place(count, at);
        assert forall|other: int|
            0 <= other < run.len() && #[trigger] run[other] == Action::Put(key) implies other
            == at by {
            lemma_marching_place(count, other);
        }
    }
    assert forall|key: u64| key >= count implies !(#[trigger] run.contains(Action::Put(key))) by {
        if run.contains(Action::Put(key)) {
            let at = choose|at: int| 0 <= at < run.len() && run[at] == Action::Put(key);
            lemma_marching_place(count, at);
        }
    }
    assert forall|early: int, late: int|
        0 <= early < late < run.len() && (#[trigger] run[early]) is Put && (#[trigger] run[late])
            is Put implies run[early]->Put_0 < run[late]->Put_0 by {
        lemma_marching_place(count, early);
        lemma_marching_place(count, late);
    }
}

/// The marching benchmark reads each key of a full window exactly once, in
/// the order of the writes and after the key was written. It never reads a
/// key of the unfinished window at the end.
pub proof fn lemma_marching_reads(count: nat)
    requires
        count <= u64::MAX,
    ensures
        forall|key: u64|
            key < marching_keys_read(count) ==> #[trigger] is_only_place(
                marching_schedule(count),
                Action::Get(key),
                marching_read_place(key),
            ),
        forall|key: u64|
            key >= marching_keys_read(count) ==> !(#[trigger] marching_schedule(count).contains(
                Action::Get(key),
            )),
        reads_rise(marching_schedule(count)),
        reads_follow_writes(marching_schedule(count)),
{
    let run = marching_schedule(count);
    assert(run.len() == count + 100 * (count / 100)) by {
        lemma_marching_places(count);
    }
    assert(marching_keys_read(count) == 100 * (count / 100));
    assert forall|key: u64| key < marching_keys_read(count) implies #[trigger] is_only_place(
        run,
        Action::Get(key),
        marching_read_place(key),
    ) by {
        let at: int = 200 * (key / 100) + 100 + key % 100;
        assert(marching_read_place(key) == at);
        lemma_marching_place(count, at);
        assert forall|other: int|
            0 <= other < run.len() && #[trigger] run[other] == Action::Get(key) implies other
            == at by {
            lemma_marching_place(count, other);
        }
    }
    assert forall|key: u64| key >= marching_keys_read(count) implies !(#[trigger] run.contains(
        Action::Get(key),
    )) by {
        if run.contains(Action::Get(key)) {
            let at = choose|at: int| 0 <= at < run.len() && run[at] == Action::Get(key);
            lemma_marching_place(count, at);
        }
    }
    assert forall|early: int, late: int|
        0 <= early < late < run.len() && (#[trigger] run[early]) is Get && (#[trigger] run[late])
            is Get implies run[early]->Get_0 < run[late]->Get_0 by {
        lemma_marching_place(count, early);
        lemma_marching_place(count, late);
    }
    assert forall|read: int| 0 <= read < run.len() && (#[trigger] run[read]) is Get implies exists|
        write: int,
    |
        0 <= write < read && #[trigger] run[write] == Action::Put(run[read]->Get_0) by {
        lemma_marching_place(count, read);
        let write: int = read - 100;
        lemma_marching_place(count, write);
        assert(run[write] == Action::Put(run[read]->Get_0));
    }
}

} // verus!
