use crate::worker::{Worker, WorkerState};
use vstd::prelude::*;

verus! {

/// How many entries of `flags` are `true`.
pub open spec fn count_true(flags: Seq<bool>) -> nat
    decreases flags.len(),
{
    if flags.len() == 0 {
        0
    } else {
        count_true(flags.drop_last()) + if flags.last() {
            1nat
        } else {
            0nat
        }
    }
}

/// How many of `workers` are in state `state`.
pub open spec fn count_in_state(workers: Seq<Worker>, state: WorkerState) -> nat {
    count_true(Seq::new(workers.len(), |i: int| workers[i].state == state))
}

/// How many of `workers` have not been joined yet.
pub open spec fn count_unjoined(workers: Seq<Worker>) -> nat {
    count_true(Seq::new(workers.len(), |i: int| !workers[i].joined))
}

/// One for `true`, zero for `false`.
pub open spec fn bit(b: bool) -> int {
    if b {
        1
    } else {
        0
    }
}

/// A count never exceeds the number of entries.
pub proof fn lemma_count_true_bounded(flags: Seq<bool>)
    ensures
        count_true(flags) <= flags.len(),
    decreases flags.len(),
{
    if flags.len() > 0 {
        lemma_count_true_bounded(flags.drop_last());
    }
}

/// Changing one entry changes the count by the difference of the two entries.
pub proof fn lemma_count_true_update(flags: Seq<bool>, i: int, b: bool)
    requires
        0 <= i < flags.len(),
    ensures
        count_true(flags.update(i, b)) == count_true(flags) - bit(flags[i]) + bit(b),
    decreases flags.len(),
{
    let after = flags.update(i, b);
    if i == flags.len() - 1 {
        assert(after.drop_last() =~= flags.drop_last());
    } else {
        lemma_count_true_update(flags.drop_last(), i, b);
        assert(after.drop_last() =~= flags.drop_last().update(i, b));
    }
}

/// The count is zero exactly when no entry is `true`.
pub proof fn lemma_count_true_zero(flags: Seq<bool>)
    ensures
        count_true(flags) == 0 <==> forall|i: int| 0 <= i < flags.len() ==> !flags[i],
    decreases flags.len(),
{
    if flags.len() > 0 {
        let front = flags.drop_last();
        lemma_count_true_zero(front);
        if count_true(flags) == 0 {
            assert forall|i: int| 0 <= i < flags.len() implies !flags[i] by {
                if i < front.len() {
                    assert(!front[i]);
                }
            }
        }
        if forall|i: int| 0 <= i < flags.len() ==> !flags[i] {
            assert forall|i: int| 0 <= i < front.len() implies !front[i] by {
                assert(!flags[i]);
            }
            assert(!flags[flags.len() - 1]);
        }
    }
}

/// The count equals the number of entries exactly when every entry is `true`.
pub proof fn lemma_count_true_full(flags: Seq<bool>)
    ensures
        count_true(flags) == flags.len() <==> forall|i: int| 0 <= i < flags.len() ==> flags[i],
    decreases flags.len(),
{
    if flags.len() > 0 {
        let front = flags.drop_last();
        lemma_count_true_full(front);
        lemma_count_true_bounded(front);
        if count_true(flags) == flags.len() {
            assert forall|i: int| 0 <= i < flags.len() implies flags[i] by {
                if i < front.len() {
                    assert(front[i]);
                }
            }
        }
        if forall|i: int| 0 <= i < flags.len() ==> flags[i] {
            assert forall|i: int| 0 <= i < front.len() implies front[i] by {
                assert(flags[i]);
            }
            assert(flags[flags.len() - 1]);
        }
    }
}

/// Replacing one worker changes the number of workers in `state` by the
/// difference between the old record and the new one.
pub proof fn lemma_count_in_state_update(
    workers: Seq<Worker>,
    i: int,
    w: Worker,
    state: WorkerState,
)
    requires
        0 <= i < workers.len(),
    ensures
        count_in_state(workers.update(i, w), state) == count_in_state(workers, state) - bit(
            workers[i].state == state,
        ) + bit(w.state == state),
{
    let before = Seq::new(workers.len(), |k: int| workers[k].state == state);
    let after = Seq::new(workers.len(), |k: int| workers.update(i, w)[k].state == state);
    assert(after =~= before.update(i, w.state == state));
    lemma_count_true_update(before, i, w.state == state);
}

/// Replacing one worker changes the number of unjoined workers by the
/// difference between the old record and the new one.
pub proof fn lemma_count_unjoined_update(workers: Seq<Worker>, i: int, w: Worker)
    requires
        0 <= i < workers.len(),
    ensures
        count_unjoined(workers.update(i, w)) == count_unjoined(workers) - bit(!workers[i].joined)
            + bit(!w.joined),
{
    let before = Seq::new(workers.len(), |k: int| !workers[k].joined);
    let after = Seq::new(workers.len(), |k: int| !workers.update(i, w)[k].joined);
    assert(after =~= before.update(i, !w.joined));
    lemma_count_true_update(before, i, !w.joined);
}

/// No worker is in `state` exactly when the count for it is zero, and all are
/// exactly when the count is the number of workers.
pub proof fn lemma_count_in_state_extremes(workers: Seq<Worker>, state: WorkerState)
    ensures
        count_in_state(workers, state) <= workers.len(),
        count_in_state(workers, state) == 0 <==> forall|i: int|
            0 <= i < workers.len() ==> (#[trigger] workers[i]).state != state,
        count_in_state(workers, state) == workers.len() <==> forall|i: int|
            0 <= i < workers.len() ==> (#[trigger] workers[i]).state == state,
{
    let flags = Seq::new(workers.len(), |k: int| workers[k].state == state);
    lemma_count_true_bounded(flags);
    lemma_count_true_zero(flags);
    lemma_count_true_full(flags);
    if forall|i: int| 0 <= i < workers.len() ==> (#[trigger] workers[i]).state != state {
        assert forall|i: int| 0 <= i < flags.len() implies !flags[i] by {
            assert(workers[i].state != state);
        }
    }
    if forall|i: int| 0 <= i < flags.len() ==> !flags[i] {
        assert forall|i: int| 0 <= i < workers.len() implies (#[trigger] workers[i]).state
            != state by {
            assert(!flags[i]);
        }
    }
    if forall|i: int| 0 <= i < workers.len() ==> (#[trigger] workers[i]).state == state {
        assert forall|i: int| 0 <= i < flags.len() implies flags[i] by {
            assert(workers[i].state == state);
        }
    }
    if forall|i: int| 0 <= i < flags.len() ==> flags[i] {
        assert forall|i: int| 0 <= i < workers.len() implies (#[trigger] workers[i]).state
            == state by {
            assert(flags[i]);
        }
    }
}

/// No worker is unjoined exactly when the count of unjoined workers is zero.
pub proof fn lemma_count_unjoined_extremes(workers: Seq<Worker>)
    ensures
        count_unjoined(workers) <= workers.len(),
        count_unjoined(workers) == 0 <==> forall|i: int|
            0 <= i < workers.len() ==> (#[trigger] workers[i]).joined,
        count_unjoined(workers) == workers.len() <==> forall|i: int|
            0 <= i < workers.len() ==> !(#[trigger] workers[i]).joined,
{
    let flags = Seq::new(workers.len(), |k: int| !workers[k].joined);
    lemma_count_true_bounded(flags);
    lemma_count_true_zero(flags);
    lemma_count_true_full(flags);
    if forall|i: int| 0 <= i < workers.len() ==> (#[trigger] workers[i]).joined {
        assert forall|i: int| 0 <= i < flags.len() implies !flags[i] by {
            assert(workers[i].joined);
        }
    }
    if forall|i: int| 0 <= i < flags.len() ==> !flags[i] {
        assert forall|i: int| 0 <= i < workers.len() implies (#[trigger] workers[i]).joined by {
            assert(!flags[i]);
        }
    }
    if forall|i: int| 0 <= i < workers.len() ==> !(#[trigger] workers[i]).joined {
        assert forall|i: int| 0 <= i < flags.len() implies flags[i] by {
            assert(!workers[i].joined);
        }
    }
    if forall|i: int| 0 <= i < flags.len() ==> flags[i] {
        assert forall|i: int| 0 <= i < workers.len() implies !(#[trigger] workers[i]).joined by {
            assert(flags[i]);
        }
    }
}

} // verus!
