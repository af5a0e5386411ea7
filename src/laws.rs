//! Properties of the tick engine over several ticks and across nodes.
//!
//! They are stated over `run_ticks`, which is what `State::replay` reports
//! and leaves behind, tick by tick.

use crate::behavior::{Action, Behavior, HeldButtons};
use crate::state::{run_ticks, tick_spec, StateView};
use crate::status::{inverted, Status};
use vstd::prelude::*;

verus! {

/// The sum of `xs`.
pub open spec fn total(xs: Seq<nat>) -> nat
    decreases xs.len(),
{
    if xs.len() == 0 {
        0
    } else {
        xs[0] + total(xs.drop_first())
    }
}

/// The budgets of `ticks`.
pub open spec fn budgets(ticks: Seq<(nat, HeldButtons)>) -> Seq<nat> {
    ticks.map_values(|t: (nat, HeldButtons)| t.0)
}

proof fn lemma_total_drop_last(xs: Seq<nat>)
    requires
        xs.len() >= 2,
    ensures
        total(xs.drop_last()) == xs[0] + total(xs.drop_first().drop_last()),
{
    assert(xs.drop_last().drop_first() =~= xs.drop_first().drop_last());
}

proof fn lemma_wait_from<S, A: Action<S>>(d: u64, e: nat, ticks: Seq<(nat, HeldButtons)>)
    requires
        e <= d,
        ticks.len() > 0,
        e + total(budgets(ticks)) == d,
        ticks.len() == 1 || e + total(budgets(ticks).drop_last()) < d,
    ensures
        ({
            let r = run_ticks(Behavior::<A>::Wait(d), StateView::<S>::WaitState(e), ticks);
            &&& r.0.len() == ticks.len()
            &&& forall|i: int| 0 <= i < ticks.len() - 1 ==> r.0[i] == Status::Running
            &&& r.0[ticks.len() - 1] == Status::Success
            &&& r.1.len() == ticks.len()
            &&& forall|i: int| 0 <= i < ticks.len() - 1 ==> r.1[i] == ticks[i].0
            &&& e + total(r.1) == d
            &&& r.2 == StateView::<S>::WaitState(0)
        }),
    decreases ticks.len(),
{
    let xs = budgets(ticks);
    let rest = ticks.drop_first();
    assert(budgets(rest) =~= xs.drop_first());
    let r = run_ticks(Behavior::<A>::Wait(d), StateView::<S>::WaitState(e), ticks);
    if ticks.len() == 1 {
        assert(xs.drop_first() =~= Seq::<nat>::empty());
        assert(total(Seq::<nat>::empty()) == 0);
        assert(total(xs) == xs[0]);
        assert(xs[0] == ticks[0].0);
        let t = tick_spec(Behavior::<A>::Wait(d), ticks[0].0, StateView::<S>::WaitState(e), ticks[0].1);
        assert(t.1 == d - e);
        assert(rest.len() == 0);
        let r2 = run_ticks(Behavior::<A>::Wait(d), t.2, rest);
        assert(r2.1 == Seq::<nat>::empty());
        assert(r.1 =~= seq![t.1]);
        assert(seq![t.1].drop_first() =~= Seq::<nat>::empty());
        assert(total(seq![t.1]) == t.1 + total(seq![t.1].drop_first()));
    } else {
        lemma_total_drop_last(xs);
        let e2 = e + ticks[0].0;
        assert(e2 < d);
        if rest.len() >= 2 {
            lemma_total_drop_last(xs.drop_first());
            assert(budgets(rest).drop_last() =~= xs.drop_first().drop_last());
        }
        lemma_wait_from::<S, A>(d, e2, rest);
        let r2 = run_ticks(Behavior::<A>::Wait(d), StateView::<S>::WaitState(e2), rest);
        assert(r.1 =~= seq![ticks[0].0] + r2.1);
        assert((seq![ticks[0].0] + r2.1).drop_first() =~= r2.1);
        assert forall|i: int| 0 <= i < ticks.len() - 1 implies r.0[i] == Status::Running && r.1[i] == ticks[i].0 by {
            if i > 0 {
                assert(r.0[i] == r2.0[i - 1]);
                assert(r.1[i] == r2.1[i - 1]);
                assert(rest[i - 1] == ticks[i]);
            }
        }
    }
}

/// A `Wait(d)` ticked from a fresh start with budgets that add up to exactly
/// `d`, none of the budgets before the last reaching `d` on its own account,
/// runs on every tick but the last, using the whole budget of each, succeeds
/// on the last, uses exactly `d` in all, and ends back at a fresh state.
pub proof fn lemma_wait_total<S, A: Action<S>>(d: u64, ticks: Seq<(nat, HeldButtons)>)
    requires
        ticks.len() > 0,
        total(budgets(ticks)) == d,
        ticks.len() == 1 || total(budgets(ticks).drop_last()) < d,
    ensures
        ({
            let r = run_ticks(Behavior::<A>::Wait(d), StateView::<S>::WaitState(0), ticks);
            &&& forall|i: int| 0 <= i < ticks.len() - 1 ==> r.0[i] == Status::Running
            &&& forall|i: int| 0 <= i < ticks.len() - 1 ==> r.1[i] == ticks[i].0
            &&& r.0[ticks.len() - 1] == Status::Success
            &&& total(r.1) == d
            &&& r.2 == StateView::<S>::WaitState(0)
        }),
{
    lemma_wait_from::<S, A>(d, 0, ticks);
}

/// `Invert` reports its child's status with `Success` and `Failure`
/// swapped, `Running` unchanged, and uses as much time as the child.
pub proof fn lemma_invert<S, A: Action<S>>(c: Behavior<A>, s: StateView<S>, dt: nat, input: HeldButtons)
    ensures
        ({
            let r = tick_spec(Behavior::Invert(Box::new(c)), dt, StateView::InvertState(Box::new(s)), input);
            let rc = tick_spec(c, dt, s, input);
            &&& r.0 == inverted(rc.0)
            &&& r.1 == rc.1
            &&& r.2 == StateView::InvertState(Box::new(rc.2))
        }),
{
}

/// Two runs of one tree from equal states, with the same budgets and inputs
/// tick by tick, report the same statuses, use the same times, and end in
/// equal states.
pub proof fn lemma_deterministic<S, A: Action<S>>(
    b: Behavior<A>,
    s1: StateView<S>,
    s2: StateView<S>,
    ticks: Seq<(nat, HeldButtons)>,
)
    requires
        s1 == s2,
    ensures
        run_ticks(b, s1, ticks) == run_ticks(b, s2, ticks),
{
}

} // verus!
