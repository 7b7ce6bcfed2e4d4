//! The safety laws of the controller state: mutual exclusion of
//! occupancy, uniqueness of reservations, single queue membership, and
//! progress for the queue of a freed section.
use vstd::prelude::*;
use crate::controller::{
    power_command, spec_occupant, spec_queue, spec_train_entered, spec_train_left, switch_commands,
    ControllerView,
};
use crate::event::HardwareSectionPower;

verus! {

/// Whether `train` holds the reservation on `section`.
pub open spec fn holds_reservation(cv: ControllerView, section: int, train: int) -> bool {
    cv.reservations.contains_key(section) && cv.reservations[section] == train
}

/// Mutual exclusion: at any point, no two distinct trains occupy the
/// same section. Occupancy is kept as a map from sections to at most
/// one occupant, so two observed occupants of one section are equal.
pub proof fn lemma_mutual_exclusion(cv: ControllerView, x: int, t1: int, t2: int)
    requires
        spec_occupant(cv, x) == Some(t1),
        spec_occupant(cv, x) == Some(t2),
    ensures
        t1 == t2,
{
}

/// Reservation uniqueness: at any point, a section has at most one
/// reservation holder.
pub proof fn lemma_reservation_unique(cv: ControllerView, x: int, t1: int, t2: int)
    requires
        holds_reservation(cv, x, t1),
        holds_reservation(cv, x, t2),
    ensures
        t1 == t2,
{
}

/// Every train appears in at most one entry of one queue.
pub open spec fn queue_single_membership(queues: Map<int, Seq<int>>) -> bool {
    forall|x1: int, x2: int, i: int, j: int|
        queues.contains_key(x1) && queues.contains_key(x2) && 0 <= i < queues[x1].len() && 0 <= j
            < queues[x2].len() && #[trigger] queues[x1][i] == #[trigger] queues[x2][j] ==> (x1 == x2
            && i == j)
}

/// Whether a train waits in some queue.
pub open spec fn in_some_queue(queues: Map<int, Seq<int>>, train: int) -> bool {
    exists|x: int, i: int|
        queues.contains_key(x) && 0 <= i < queues[x].len() && #[trigger] queues[x][i] == train
}

/// Queue single membership: handling `TrainEnteredSection` keeps every
/// train in at most one queue entry, as long as the entering train is
/// not itself still queued somewhere.
pub proof fn lemma_queue_membership_entered(cv: ControllerView, train: int, current: int)
    requires
        queue_single_membership(cv.queues),
        !in_some_queue(cv.queues, train),
    ensures
        queue_single_membership(spec_train_entered(cv, train, current).state.queues),
{
    let o = spec_train_entered(cv, train, current);
    if o.state.queues != cv.queues {
        let tm = cv.trains[train].mode;
        let next = tm.transition_to_next()->Some_0.destination();
        let q1 = spec_queue(cv, next).push(train);
        let queues1 = cv.queues.insert(next, q1);
        assert(o.state.queues == queues1);
        assert forall|x1: int, x2: int, i: int, j: int|
            queues1.contains_key(x1) && queues1.contains_key(x2) && 0 <= i < queues1[x1].len() && 0
                <= j < queues1[x2].len() && #[trigger] queues1[x1][i] == #[trigger] queues1[x2][j]
            implies (x1 == x2 && i == j) by {
            if x1 == next && i == q1.len() - 1 {
                // the new tail entry is the entering train, queued nowhere else
                if !(x2 == next && j == q1.len() - 1) {
                    if x2 == next {
                        assert(q1[j] == spec_queue(cv, next)[j]);
                        if cv.queues.contains_key(next) {
                            assert(cv.queues[next][j] == train);
                        }
                    } else {
                        assert(cv.queues[x2][j] == train);
                    }
                    assert(false);
                }
            } else if x2 == next && j == q1.len() - 1 {
                if x1 == next {
                    assert(q1[i] == spec_queue(cv, next)[i]);
                    if cv.queues.contains_key(next) {
                        assert(cv.queues[next][i] == train);
                    }
                } else {
                    assert(cv.queues[x1][i] == train);
                }
                assert(false);
            } else {
                if x1 == next && !cv.queues.contains_key(next) {
                    assert(false);
                }
                if x2 == next && !cv.queues.contains_key(next) {
                    assert(false);
                }
                assert(cv.queues[x1][i] == cv.queues[x2][j]);
            }
        }
    }
}

/// Queue single membership: handling `TrainLeftSection` only ever pops a
/// queue head, which keeps every train in at most one queue entry.
pub proof fn lemma_queue_membership_left(cv: ControllerView, train: int, section: int)
    requires
        queue_single_membership(cv.queues),
    ensures
        queue_single_membership(spec_train_left(cv, train, section).state.queues),
{
    let o = spec_train_left(cv, train, section);
    if o.state.queues != cv.queues {
        let q = spec_queue(cv, section);
        let queues2 = cv.queues.insert(section, q.skip(1));
        assert(o.state.queues == queues2);
        assert forall|x1: int, x2: int, i: int, j: int|
            queues2.contains_key(x1) && queues2.contains_key(x2) && 0 <= i < queues2[x1].len() && 0
                <= j < queues2[x2].len() && #[trigger] queues2[x1][i] == #[trigger] queues2[x2][j]
            implies (x1 == x2 && i == j) by {
            let i0 = if x1 == section {
                i + 1
            } else {
                i
            };
            let j0 = if x2 == section {
                j + 1
            } else {
                j
            };
            assert(cv.queues[x1][i0] == cv.queues[x2][j0]);
        }
    }
}

/// Progress: after `TrainLeftSection{t, x}` is handled, either the queue
/// of `x` was empty — and `x` is powered off — or its head was popped
/// and, unless it had gone stale, commanded to proceed: its own section
/// is repowered first and `x` is powered for it last.
pub proof fn lemma_progress_after_leave(cv: ControllerView, train: int, section: int)
    ensures
        ({
            let o = spec_train_left(cv, train, section);
            let q = spec_queue(cv, section);
            &&& (q.len() == 0 ==> o.commands == seq![
                power_command(section, HardwareSectionPower::Off),
            ] && o.state.queues == cv.queues)
            &&& (q.len() > 0 ==> o.state.queues == cv.queues.insert(section, q.skip(1)))
            &&& (q.len() > 0 && live_waiter(cv, q[0], section) ==> {
                let wm = cv.trains[q[0]].mode;
                let cur = wm.current_section()->Some_0;
                let tr = wm.transition_to_next()->Some_0;
                &&& o.commands == seq![power_command(cur, HardwareSectionPower::Full)]
                    + switch_commands(tr.switch_changes()) + seq![
                    power_command(section, HardwareSectionPower::Full),
                ]
                &&& o.commands.first() == power_command(cur, HardwareSectionPower::Full)
                &&& o.commands.last() == power_command(section, HardwareSectionPower::Full)
            })
        }),
{
    let o = spec_train_left(cv, train, section);
    let q = spec_queue(cv, section);
    if q.len() > 0 && live_waiter(cv, q[0], section) {
        let wm = cv.trains[q[0]].mode;
        let cur = wm.current_section()->Some_0;
        let tr = wm.transition_to_next()->Some_0;
        let cmds = seq![power_command(cur, HardwareSectionPower::Full)] + switch_commands(
            tr.switch_changes(),
        ) + seq![power_command(section, HardwareSectionPower::Full)];
        assert(o.commands == cmds);
        assert(cmds.first() == power_command(cur, HardwareSectionPower::Full));
        assert(cmds.last() == power_command(section, HardwareSectionPower::Full));
    }
}

/// A queued waiter that is still bound for the section it waits on, with
/// a known position and a remaining transition.
pub open spec fn live_waiter(cv: ControllerView, w: int, section: int) -> bool {
    &&& cv.trains.contains_key(w)
    &&& cv.trains[w].mode.next_section() == Some(section)
    &&& cv.trains[w].mode.current_section() is Some
    &&& cv.trains[w].mode.transition_to_next() is Some
}

} // verus!
