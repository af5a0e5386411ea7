//! Runtime state of a behavior tree and the tick engine that advances it.

use crate::behavior::{Action, Behavior, HeldButtons};
use crate::status::{inverted, Status};
use vstd::prelude::*;

verus! {

broadcast use {vstd::seq::group_seq_axioms, vstd::std_specs::vec::group_vec_axioms};

/// The state of one node of a behavior tree, shaped as the node itself.
///
/// `S` is the progress type of the tree's leaf actions.
#[derive(Debug, PartialEq)]
pub enum State<S> {
    /// Progress of a leaf action.
    ActionState(S),
    /// Time waited so far.
    WaitState(u64),
    /// A button check keeps nothing between ticks.
    PressedState,
    /// A button check keeps nothing between ticks.
    ReleasedState,
    /// State of the inverted child.
    InvertState(Box<State<S>>),
    /// States of the children and the index of the current one.
    SequenceState(Vec<State<S>>, usize),
    /// States of the children and the index of the current one.
    SelectState(Vec<State<S>>, usize),
    /// States of the children, which all run side by side.
    WhenAllState(Vec<State<S>>),
    /// State of the condition, states of the body and the index of the
    /// current body node.
    WhileState(Box<State<S>>, Vec<State<S>>, usize),
}

/// The mathematical value of a `State`.
pub enum StateView<S> {
    ActionState(S),
    WaitState(nat),
    PressedState,
    ReleasedState,
    InvertState(Box<StateView<S>>),
    SequenceState(Seq<StateView<S>>, nat),
    SelectState(Seq<StateView<S>>, nat),
    WhenAllState(Seq<StateView<S>>),
    WhileState(Box<StateView<S>>, Seq<StateView<S>>, nat),
}

/// Views of a vector of states, one for one.
pub open spec fn views<S>(v: Vec<State<S>>) -> Seq<StateView<S>>
    decreases v, 0nat,
{
    Seq::new(v.len() as nat, |i: int| if 0 <= i < v.len() { v[i].model() } else { StateView::PressedState })
}

/// Whether `s` has the shape of `b`: one state per node, of the node's kind,
/// and no wait past its duration.
pub open spec fn fits<S, A>(b: Behavior<A>, s: StateView<S>) -> bool
    decreases b, 2nat, 0nat,
{
    match b {
        Behavior::Action(_) => s is ActionState,
        Behavior::Wait(d) => s is WaitState && s->WaitState_0 <= d,
        Behavior::Pressed(_) => s is PressedState,
        Behavior::Released(_) => s is ReleasedState,
        Behavior::Invert(c) => s is InvertState && fits(*c, *s->InvertState_0),
        Behavior::Sequence(v) => s is SequenceState && all_fit(v@, s->SequenceState_0),
        Behavior::Select(v) => s is SelectState && all_fit(v@, s->SelectState_0),
        Behavior::WhenAll(v) => s is WhenAllState && all_fit(v@, s->WhenAllState_0),
        Behavior::While(c, v) => s is WhileState && fits(*c, *s->WhileState_0) && all_fit(v@, s->WhileState_1),
    }
}

/// Whether `ss` has one state fitting each node of `bs`.
pub open spec fn all_fit<S, A>(bs: Seq<Behavior<A>>, ss: Seq<StateView<S>>) -> bool
    decreases bs, 1nat, 0nat,
{
    ss.len() == bs.len() && forall|i: int| 0 <= i < bs.len() ==> fits(#[trigger] bs[i], ss[i])
}

/// The state of a fresh run of `b`: cursors and waits at zero, each action
/// at its initial progress.
pub open spec fn initial_state<S, A: Action<S>>(b: Behavior<A>) -> StateView<S>
    decreases b, 2nat, 0nat,
{
    match b {
        Behavior::Action(a) => StateView::ActionState(a.initial()),
        Behavior::Wait(_) => StateView::WaitState(0),
        Behavior::Pressed(_) => StateView::PressedState,
        Behavior::Released(_) => StateView::ReleasedState,
        Behavior::Invert(c) => StateView::InvertState(Box::new(initial_state(*c))),
        Behavior::Sequence(v) => StateView::SequenceState(initial_states(v@), 0),
        Behavior::Select(v) => StateView::SelectState(initial_states(v@), 0),
        Behavior::WhenAll(v) => StateView::WhenAllState(initial_states(v@)),
        Behavior::While(c, v) => StateView::WhileState(
            Box::new(initial_state(*c)),
            initial_states(v@),
            0,
        ),
    }
}

/// Fresh states of the nodes `bs`, one for one.
pub open spec fn initial_states<S, A: Action<S>>(bs: Seq<Behavior<A>>) -> Seq<StateView<S>>
    decreases bs, 1nat, 0nat,
{
    Seq::new(bs.len(), |i: int| if 0 <= i < bs.len() { initial_state(bs[i]) } else { StateView::PressedState })
}

/// One tick of `b` in state `s` with budget `dt` while the buttons of
/// `input` are held: the status, the time used, and the state after the tick.
pub open spec fn tick_spec<S, A: Action<S>>(
    b: Behavior<A>,
    dt: nat,
    s: StateView<S>,
    input: HeldButtons,
) -> (Status, nat, StateView<S>)
    decreases b, 2nat, 0nat,
{
    match b {
        Behavior::Action(a) => {
            let r = a.step(dt as u64, s->ActionState_0, input);
            (r.0, r.1 as nat, StateView::ActionState(r.2))
        },
        Behavior::Wait(d) => {
            let e = s->WaitState_0;
            if e + dt >= d {
                (Status::Success, (d - e) as nat, StateView::WaitState(0))
            } else {
                (Status::Running, dt, StateView::WaitState(e + dt))
            }
        },
        Behavior::Pressed(k) => (
            if input@.contains(k) {
                Status::Success
            } else {
                Status::Failure
            },
            0,
            s,
        ),
        Behavior::Released(k) => (
            if input@.contains(k) {
                Status::Failure
            } else {
                Status::Success
            },
            0,
            s,
        ),
        Behavior::Invert(c) => {
            let r = tick_spec(*c, dt, *s->InvertState_0, input);
            (inverted(r.0), r.1, StateView::InvertState(Box::new(r.2)))
        },
        Behavior::Sequence(v) => {
            let r = run_spec(v@, s->SequenceState_0, s->SequenceState_1, dt, 0, Status::Success, input);
            (r.0, r.1, StateView::SequenceState(r.2, r.3))
        },
        Behavior::Select(v) => {
            let r = run_spec(v@, s->SelectState_0, s->SelectState_1, dt, 0, Status::Failure, input);
            (r.0, r.1, StateView::SelectState(r.2, r.3))
        },
        Behavior::WhenAll(v) => {
            let r = all_spec(v@, s->WhenAllState_0, 0, dt, false, true, input);
            (r.0, dt, StateView::WhenAllState(r.1))
        },
        Behavior::While(_, _) => {
            let r = loop_spec(
                b,
                *s->WhileState_0,
                s->WhileState_1,
                s->WhileState_2,
                dt,
                0,
                input,
            );
            (r.0, r.1, StateView::WhileState(Box::new(r.2), r.3, r.4))
        },
    }
}

/// Children `bs` run in order from `cursor`, with `remaining` of the budget
/// left and `used` of it spent. A child that reports `go_on` hands what is
/// left to the next child; any other report ends the run. When the last child
/// reports `go_on`, the run reports `go_on`. The cursor stays at a running
/// child and goes back to 0 otherwise. Result: status, total time used,
/// states, cursor.
pub open spec fn run_spec<S, A: Action<S>>(
    bs: Seq<Behavior<A>>,
    ss: Seq<StateView<S>>,
    cursor: nat,
    remaining: nat,
    used: nat,
    go_on: Status,
    input: HeldButtons,
) -> (Status, nat, Seq<StateView<S>>, nat)
    decreases bs, 1nat, bs.len() - cursor,
{
    if cursor < bs.len() {
        let r = tick_spec(bs[cursor as int], remaining, ss[cursor as int], input);
        let ss2 = ss.update(cursor as int, r.2);
        if r.0 == go_on {
            run_spec(bs, ss2, cursor + 1, (remaining - r.1) as nat, used + r.1, go_on, input)
        } else if r.0 == Status::Running {
            (Status::Running, used + r.1, ss2, cursor)
        } else {
            (r.0, used + r.1, ss2, 0)
        }
    } else {
        (go_on, used, ss, 0)
    }
}

/// Children `bs` from index `i` on, each ticked with the whole budget `dt`.
/// `failed` says whether a child so far failed, `all_done` whether all so far
/// succeeded. Result: status of the whole, and the states.
pub open spec fn all_spec<S, A: Action<S>>(
    bs: Seq<Behavior<A>>,
    ss: Seq<StateView<S>>,
    i: nat,
    dt: nat,
    failed: bool,
    all_done: bool,
    input: HeldButtons,
) -> (Status, Seq<StateView<S>>)
    decreases bs, 1nat, bs.len() - i,
{
    if i < bs.len() {
        let r = tick_spec(bs[i as int], dt, ss[i as int], input);
        all_spec(
            bs,
            ss.update(i as int, r.2),
            i + 1,
            dt,
            failed || r.0 == Status::Failure,
            all_done && r.0 == Status::Success,
            input,
        )
    } else if failed {
        (Status::Failure, ss)
    } else if all_done {
        (Status::Success, ss)
    } else {
        (Status::Running, ss)
    }
}

/// The loop `b` (a `While`), with condition state `cs`, body states `bss` and
/// body cursor `k`, `remaining` of the budget left and `used` spent.
/// Each round ticks the condition; on its `Failure` the loop succeeds, on
/// `Running` it runs; on `Success` the body runs as a sequence with what is
/// left. When the body fails or runs, so does the loop. When it succeeds, the
/// next round starts if this round used time; a round that used none ends the
/// tick with `Running`, so a body of instant steps cannot spin forever.
/// Result: status, total time used, condition state, body states, cursor.
pub open spec fn loop_spec<S, A: Action<S>>(
    b: Behavior<A>,
    cs: StateView<S>,
    bss: Seq<StateView<S>>,
    k: nat,
    remaining: nat,
    used: nat,
    input: HeldButtons,
) -> (Status, nat, StateView<S>, Seq<StateView<S>>, nat)
    decreases b, 1nat, remaining,
{
    match b {
        Behavior::While(c, body) => {
            let rc = tick_spec(*c, remaining, cs, input);
            if rc.0 == Status::Failure {
                (Status::Success, used + rc.1, rc.2, bss, k)
            } else if rc.0 == Status::Running {
                (Status::Running, used + rc.1, rc.2, bss, k)
            } else {
                let rb = run_spec(body@, bss, k, (remaining - rc.1) as nat, 0, Status::Success, input);
                let round = rc.1 + rb.1;
                if rb.0 != Status::Success {
                    (rb.0, used + round, rc.2, rb.2, rb.3)
                } else if 0 < round && round <= remaining {
                    loop_spec(b, rc.2, rb.2, rb.3, (remaining - round) as nat, used + round, input)
                } else {
                    (Status::Running, used + round, rc.2, rb.2, rb.3)
                }
            }
        },
        _ => (Status::Failure, used, cs, bss, k),
    }
}

/// Ticks `b` from state `s` once per `(dt, input)` pair of `ticks`, in
/// order. Result: the statuses, the times used, and the last state.
pub open spec fn run_ticks<S, A: Action<S>>(
    b: Behavior<A>,
    s: StateView<S>,
    ticks: Seq<(nat, HeldButtons)>,
) -> (Seq<Status>, Seq<nat>, StateView<S>)
    decreases ticks.len(),
{
    if ticks.len() == 0 {
        (Seq::empty(), Seq::empty(), s)
    } else {
        let r = tick_spec(b, ticks[0].0, s, ticks[0].1);
        let rest = run_ticks(b, r.2, ticks.drop_first());
        (seq![r.0] + rest.0, seq![r.1] + rest.1, rest.2)
    }
}

/// The steps of `replay` as `run_ticks` takes them.
pub open spec fn step_seq(steps: Seq<(u64, HeldButtons)>) -> Seq<(nat, HeldButtons)> {
    steps.map_values(|t: (u64, HeldButtons)| (t.0 as nat, t.1))
}

impl<S> State<S> {
    /// A fresh state for `b`: every cursor and wait at zero, every action at
    /// the progress its `start` makes.
    pub fn new<A: Action<S>>(b: &Behavior<A>) -> (r: State<S>)
        ensures
            r.model() == initial_state::<S, A>(*b),
            fits(*b, r.model()),
        decreases b,
    {
        match b {
            Behavior::Action(a) => State::ActionState(a.start()),
            Behavior::Wait(_) => State::WaitState(0),
            Behavior::Pressed(_) => State::PressedState,
            Behavior::Released(_) => State::ReleasedState,
            Behavior::Invert(c) => State::InvertState(Box::new(State::new(&**c))),
            Behavior::Sequence(v) => State::SequenceState(State::new_all(v), 0),
            Behavior::Select(v) => State::SelectState(State::new_all(v), 0),
            Behavior::WhenAll(v) => State::WhenAllState(State::new_all(v)),
            Behavior::While(c, v) => State::WhileState(Box::new(State::new(&**c)), State::new_all(v), 0),
        }
    }

    /// Ticks the tree `b` once per `(dt, input)` step of `steps`, in order,
    /// as `update` does, and returns what each tick reported.
    pub fn replay<A: Action<S>>(&mut self, b: &Behavior<A>, steps: &Vec<(u64, HeldButtons)>) -> (r: Vec<(Status, u64)>)
        requires
            fits(*b, old(self).model()),
        ensures
            fits(*b, final(self).model()),
            ({
                let want = run_ticks(*b, old(self).model(), step_seq(steps@));
                &&& r.len() == steps.len()
                &&& forall|i: int| 0 <= i < r.len() ==> r[i].0 == want.0[i] && r[i].1 as nat == want.1[i]
                &&& final(self).model() == want.2
            }),
    {
        let ghost all = step_seq(steps@);
        let ghost start = self.model();
        let ghost sts: Seq<Status> = Seq::empty();
        let ghost useds: Seq<nat> = Seq::empty();
        let mut r: Vec<(Status, u64)> = Vec::new();
        let mut i: usize = 0;
        proof {
            let want = run_ticks(*b, start, all);
            assert(all.subrange(0, all.len() as int) =~= all);
            assert(sts + want.0 =~= want.0);
            assert(useds + want.1 =~= want.1);
        }
        while i < steps.len()
            invariant
                i <= steps.len(),
                all == step_seq(steps@),
                fits(*b, self.model()),
                r.len() == i,
                sts.len() == i,
                useds.len() == i,
                forall|j: int| 0 <= j < i ==> r[j].0 == sts[j] && r[j].1 as nat == useds[j],
                ({
                    let want = run_ticks(*b, start, all);
                    let rest = run_ticks(*b, self.model(), all.subrange(i as int, all.len() as int));
                    &&& want.0 == sts + rest.0
                    &&& want.1 == useds + rest.1
                    &&& want.2 == rest.2
                }),
            decreases steps.len() - i,
        {
            let ghost before = self.model();
            let ghost tail = all.subrange(i as int, all.len() as int);
            assert(tail.drop_first() =~= all.subrange(i + 1, all.len() as int));
            let out = self.update(b, steps[i].0, &steps[i].1);
            proof {
                let rest = run_ticks(*b, before, tail);
                let next = run_ticks(*b, self.model(), tail.drop_first());
                assert(rest.0 == seq![out.0] + next.0);
                assert(rest.1 == seq![out.1 as nat] + next.1);
                assert(sts + rest.0 =~= sts.push(out.0) + next.0);
                assert(useds + rest.1 =~= useds.push(out.1 as nat) + next.1);
                sts = sts.push(out.0);
                useds = useds.push(out.1 as nat);
            }
            r.push(out);
            i = i + 1;
        }
        proof {
            let rest = run_ticks(*b, self.model(), all.subrange(i as int, all.len() as int));
            assert(all.subrange(i as int, all.len() as int) =~= Seq::empty());
            assert(sts + rest.0 =~= sts);
            assert(useds + rest.1 =~= useds);
        }
        r
    }

    /// Whether this state has the shape of `b`, so that `update` may tick
    /// `b` with it. A state made by `State::new(b)` always has.
    pub fn is_state_of<A>(&self, b: &Behavior<A>) -> (r: bool)
        ensures
            r == fits(*b, self.model()),
        decreases b,
    {
        match b {
            Behavior::Action(_) => match self {
                State::ActionState(_) => true,
                _ => false,
            },
            Behavior::Wait(d) => match self {
                State::WaitState(e) => *e <= *d,
                _ => false,
            },
            Behavior::Pressed(_) => match self {
                State::PressedState => true,
                _ => false,
            },
            Behavior::Released(_) => match self {
                State::ReleasedState => true,
                _ => false,
            },
            Behavior::Invert(c) => match self {
                State::InvertState(cs) => cs.is_state_of(&**c),
                _ => false,
            },
            Behavior::Sequence(v) => match self {
                State::SequenceState(ss, _) => State::all_states_of(ss, v),
                _ => false,
            },
            Behavior::Select(v) => match self {
                State::SelectState(ss, _) => State::all_states_of(ss, v),
                _ => false,
            },
            Behavior::WhenAll(v) => match self {
                State::WhenAllState(ss) => State::all_states_of(ss, v),
                _ => false,
            },
            Behavior::While(c, v) => match self {
                State::WhileState(cs, ss, _) => cs.is_state_of(&**c) && State::all_states_of(ss, v),
                _ => false,
            },
        }
    }

    /// Whether `ss` holds one state fitting each node of `bs`.
    fn all_states_of<A>(ss: &Vec<State<S>>, bs: &Vec<Behavior<A>>) -> (r: bool)
        ensures
            r == all_fit(bs@, views(*ss)),
        decreases bs,
    {
        if ss.len() != bs.len() {
            return false;
        }
        let mut i: usize = 0;
        while i < bs.len()
            invariant
                i <= bs.len(),
                ss.len() == bs.len(),
                forall|j: int| 0 <= j < i ==> fits(#[trigger] bs@[j], views(*ss)[j]),
            decreases bs.len() - i,
        {
            if !ss[i].is_state_of(&bs[i]) {
                assert(!fits(bs@[i as int], views(*ss)[i as int]));
                return false;
            }
            i = i + 1;
        }
        true
    }

    /// Ticks the tree `b`, whose state this is, with a budget of `dt` while
    /// the buttons of `input` are held. Returns the status of the tree and
    /// the part of `dt` it used, and leaves the state where the tick ended.
    ///
    /// A `Wait` uses only what it still needed; a button check uses nothing.
    /// `Sequence`, `Select` and `While` hand what a finished child left over
    /// to the next child within the same tick. `WhenAll` gives each child the
    /// whole budget and uses all of it. An empty `Sequence` succeeds and an
    /// empty `Select` fails, using nothing. A round of a `While` that used no
    /// time ends the tick with `Running`, so a loop of instant steps goes on
    /// at the next tick instead of spinning.
    pub fn update<A: Action<S>>(&mut self, b: &Behavior<A>, dt: u64, input: &HeldButtons) -> (r: (Status, u64))
        requires
            fits(*b, old(self).model()),
        ensures
            r.1 <= dt,
            fits(*b, final(self).model()),
            (r.0, r.1 as nat, final(self).model()) == tick_spec(*b, dt as nat, old(self).model(), *input),
        decreases b, 1nat,
    {
        match b {
            Behavior::Action(a) => match self {
                State::ActionState(x) => a.tick(dt, x, input),
                _ => vstd::pervasive::unreached(),
            },
            Behavior::Wait(d) => match self {
                State::WaitState(e) => {
                    if dt >= *d - *e {
                        let used = *d - *e;
                        *e = 0;
                        (Status::Success, used)
                    } else {
                        *e = *e + dt;
                        (Status::Running, dt)
                    }
                },
                _ => vstd::pervasive::unreached(),
            },
            Behavior::Pressed(k) => {
                if input.is_down(*k) {
                    (Status::Success, 0)
                } else {
                    (Status::Failure, 0)
                }
            },
            Behavior::Released(k) => {
                if input.is_down(*k) {
                    (Status::Failure, 0)
                } else {
                    (Status::Success, 0)
                }
            },
            Behavior::Invert(c) => match self {
                State::InvertState(cs) => {
                    let r = cs.update(&**c, dt, input);
                    (r.0.invert(), r.1)
                },
                _ => vstd::pervasive::unreached(),
            },
            Behavior::Sequence(v) => match self {
                State::SequenceState(ss, k) => State::run_list(v, ss, k, dt, Status::Success, input),
                _ => vstd::pervasive::unreached(),
            },
            Behavior::Select(v) => match self {
                State::SelectState(ss, k) => State::run_list(v, ss, k, dt, Status::Failure, input),
                _ => vstd::pervasive::unreached(),
            },
            Behavior::WhenAll(v) => match self {
                State::WhenAllState(ss) => (State::tick_all(v, ss, dt, input), dt),
                _ => vstd::pervasive::unreached(),
            },
            Behavior::While(_, _) => match self {
                State::WhileState(cs, ss, k) => State::run_loop(b, cs, ss, k, dt, input),
                _ => vstd::pervasive::unreached(),
            },
        }
    }

    /// Runs the children `bs` in order from the cursor `k`, as `run_spec`
    /// says.
    fn run_list<A: Action<S>>(
        bs: &Vec<Behavior<A>>,
        ss: &mut Vec<State<S>>,
        k: &mut usize,
        dt: u64,
        go_on: Status,
        input: &HeldButtons,
    ) -> (r: (Status, u64))
        requires
            all_fit(bs@, views(*old(ss))),
        ensures
            r.1 <= dt,
            all_fit(bs@, views(*final(ss))),
            (r.0, r.1 as nat, views(*final(ss)), *final(k) as nat) == run_spec(
                bs@,
                views(*old(ss)),
                *old(k) as nat,
                dt as nat,
                0,
                go_on,
                *input,
            ),
        decreases bs, 0nat,
    {
        let mut used: u64 = 0;
        while *k < bs.len()
            invariant
                used <= dt,
                all_fit(bs@, views(*ss)),
                run_spec(bs@, views(*old(ss)), *old(k) as nat, dt as nat, 0, go_on, *input) == run_spec(
                    bs@,
                    views(*ss),
                    *k as nat,
                    (dt - used) as nat,
                    used as nat,
                    go_on,
                    *input,
                ),
            decreases bs.len() - *k,
        {
            let i = *k;
            let ghost before = *ss;
            let mut child = ss.remove(i);
            assert(child.model() == views(before)[i as int]);
            let r = child.update(&bs[i], dt - used, input);
            ss.insert(i, child);
            assert(ss@ =~= before@.update(i as int, child));
            assert(views(*ss) =~= views(before).update(i as int, child.model()));
            used = used + r.1;
            if r.0 == go_on {
                *k = i + 1;
            } else if r.0 == Status::Running {
                return (Status::Running, used);
            } else {
                *k = 0;
                return (r.0, used);
            }
        }
        *k = 0;
        (go_on, used)
    }

    /// Ticks each of the children `bs` with the whole budget, as `all_spec`
    /// says.
    fn tick_all<A: Action<S>>(bs: &Vec<Behavior<A>>, ss: &mut Vec<State<S>>, dt: u64, input: &HeldButtons) -> (r: Status)
        requires
            all_fit(bs@, views(*old(ss))),
        ensures
            all_fit(bs@, views(*final(ss))),
            (r, views(*final(ss))) == all_spec(bs@, views(*old(ss)), 0, dt as nat, false, true, *input),
        decreases bs, 0nat,
    {
        let mut failed = false;
        let mut all_done = true;
        let mut i: usize = 0;
        while i < bs.len()
            invariant
                i <= bs.len(),
                all_fit(bs@, views(*ss)),
                all_spec(bs@, views(*old(ss)), 0, dt as nat, false, true, *input) == all_spec(
                    bs@,
                    views(*ss),
                    i as nat,
                    dt as nat,
                    failed,
                    all_done,
                    *input,
                ),
            decreases bs.len() - i,
        {
            let ghost before = *ss;
            let mut child = ss.remove(i);
            assert(child.model() == views(before)[i as int]);
            let r = child.update(&bs[i], dt, input);
            ss.insert(i, child);
            assert(ss@ =~= before@.update(i as int, child));
            assert(views(*ss) =~= views(before).update(i as int, child.model()));
            failed = failed || r.0 == Status::Failure;
            all_done = all_done && r.0 == Status::Success;
            i = i + 1;
        }
        if failed {
            Status::Failure
        } else if all_done {
            Status::Success
        } else {
            Status::Running
        }
    }

    /// Runs the loop `b`, a `While`, as `loop_spec` says.
    fn run_loop<A: Action<S>>(
        b: &Behavior<A>,
        cs: &mut Box<State<S>>,
        bss: &mut Vec<State<S>>,
        k: &mut usize,
        dt: u64,
        input: &HeldButtons,
    ) -> (r: (Status, u64))
        requires
            fits(*b, StateView::WhileState(Box::new(old(cs).model()), views(*old(bss)), *old(k) as nat)),
        ensures
            r.1 <= dt,
            fits(*b, StateView::WhileState(Box::new(final(cs).model()), views(*final(bss)), *final(k) as nat)),
            (r.0, r.1 as nat, final(cs).model(), views(*final(bss)), *final(k) as nat) == loop_spec(
                *b,
                old(cs).model(),
                views(*old(bss)),
                *old(k) as nat,
                dt as nat,
                0,
                *input,
            ),
        decreases b, 0nat,
    {
        match b {
            Behavior::While(c, body) => {
                let mut used: u64 = 0;
                loop
                    invariant
                        used <= dt,
                        *b == Behavior::While(*c, *body),
                        fits(**c, cs.model()),
                        all_fit(body@, views(*bss)),
                        loop_spec(*b, old(cs).model(), views(*old(bss)), *old(k) as nat, dt as nat, 0, *input)
                            == loop_spec(*b, cs.model(), views(*bss), *k as nat, (dt - used) as nat, used as nat, *input),
                    decreases dt - used,
                {
                    let rc = cs.update(&**c, dt - used, input);
                    if rc.0 == Status::Failure {
                        return (Status::Success, used + rc.1);
                    }
                    if rc.0 == Status::Running {
                        return (Status::Running, used + rc.1);
                    }
                    let rb = State::run_list(body, bss, k, dt - used - rc.1, Status::Success, input);
                    let round = rc.1 + rb.1;
                    used = used + round;
                    if rb.0 != Status::Success {
                        return (rb.0, used);
                    }
                    if round == 0 {
                        return (Status::Running, used);
                    }
                }
            },
            _ => vstd::pervasive::unreached(),
        }
    }

    /// Fresh states for the nodes `bs`, one for one.
    fn new_all<A: Action<S>>(bs: &Vec<Behavior<A>>) -> (r: Vec<State<S>>)
        ensures
            views(r) == initial_states::<S, A>(bs@),
            all_fit(bs@, views(r)),
        decreases bs,
    {
        let mut r: Vec<State<S>> = Vec::new();
        let mut i: usize = 0;
        while i < bs.len()
            invariant
                i <= bs.len(),
                r.len() == i,
                forall|j: int| 0 <= j < i ==> (#[trigger] r[j]).model() == initial_state::<S, A>(bs[j]) && fits(bs[j], r[j].model()),
            decreases bs.len() - i,
        {
            let s = State::new(&bs[i]);
            r.push(s);
            i = i + 1;
        }
        assert(views(r) =~= initial_states::<S, A>(bs@));
        r
    }

    /// The mathematical value of this state.
    pub open spec fn model(self) -> StateView<S>
        decreases self, 1nat,
    {
        match self {
            State::ActionState(x) => StateView::ActionState(x),
            State::WaitState(e) => StateView::WaitState(e as nat),
            State::PressedState => StateView::PressedState,
            State::ReleasedState => StateView::ReleasedState,
            State::InvertState(c) => StateView::InvertState(Box::new((*c).model())),
            State::SequenceState(v, k) => StateView::SequenceState(views(v), k as nat),
            State::SelectState(v, k) => StateView::SelectState(views(v), k as nat),
            State::WhenAllState(v) => StateView::WhenAllState(views(v)),
            State::WhileState(c, v, k) => StateView::WhileState(Box::new((*c).model()), views(v), k as nat),
        }
    }
}

} // verus!
