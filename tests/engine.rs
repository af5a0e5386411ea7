use event::{Action, Behavior, Button, HeldButtons, State, Status};

#[derive(Clone, Copy, Debug, PartialEq)]
enum Act {
    Succeed,
    Fail,
    Forever,
    Count,
}

impl Act {
    fn outcome(&self, dt: u64, progress: u64) -> (Status, u64, u64) {
        match self {
            Act::Succeed => (Status::Success, 0, progress),
            Act::Fail => (Status::Failure, 0, progress),
            Act::Forever => (Status::Running, dt, progress),
            Act::Count => {
                if dt >= 1 {
                    (Status::Success, 1, progress + 1)
                } else {
                    (Status::Running, 0, progress)
                }
            }
        }
    }
}

impl Action<u64> for Act {
    fn initial(&self) -> u64 {
        0
    }

    fn step(&self, dt: u64, progress: u64, _input: HeldButtons) -> (Status, u64, u64) {
        self.outcome(dt, progress)
    }

    fn start(&self) -> u64 {
        0
    }

    fn tick(&self, dt: u64, progress: &mut u64, _input: &HeldButtons) -> (Status, u64) {
        let (status, used, next) = self.outcome(dt, *progress);
        *progress = next;
        (status, used)
    }
}

const A: Button = Button { code: 65 };
const B: Button = Button { code: 66 };

fn none() -> HeldButtons {
    HeldButtons::new()
}

fn holding(b: Button) -> HeldButtons {
    let mut h = HeldButtons::new();
    h.press(b);
    h
}

fn tick(b: &Behavior<Act>, s: &mut State<u64>, dt: u64) -> (Status, u64) {
    s.update(b, dt, &none())
}

#[test]
fn wait_runs_until_its_duration_adds_up() {
    let b: Behavior<Act> = Behavior::Wait(5);
    let mut s = State::new(&b);
    let mut used = 0;
    for (dt, want) in [(2, Status::Running), (2, Status::Running), (1, Status::Success)] {
        let (st, c) = tick(&b, &mut s, dt);
        assert_eq!(st, want);
        used += c;
    }
    assert_eq!(used, 5);
    assert_eq!(s, State::WaitState(0));
}

#[test]
fn wait_uses_only_what_it_still_needs() {
    let b: Behavior<Act> = Behavior::Wait(3);
    let mut s = State::new(&b);
    assert_eq!(tick(&b, &mut s, 1), (Status::Running, 1));
    assert_eq!(s, State::WaitState(1));
    assert_eq!(tick(&b, &mut s, 10), (Status::Success, 2));
    assert_eq!(s, State::WaitState(0));
}

#[test]
fn wait_of_zero_succeeds_at_once() {
    let b: Behavior<Act> = Behavior::Wait(0);
    let mut s = State::new(&b);
    assert_eq!(tick(&b, &mut s, 0), (Status::Success, 0));
}

#[test]
fn zero_waits_in_sequence_finish_in_one_tick() {
    let b: Behavior<Act> = Behavior::Sequence(vec![Behavior::Wait(0), Behavior::Wait(0), Behavior::Wait(0)]);
    let mut s = State::new(&b);
    assert_eq!(tick(&b, &mut s, 0), (Status::Success, 0));
}

#[test]
fn select_passes_the_budget_on_after_a_failure() {
    let b = Behavior::Select(vec![Behavior::Action(Act::Fail), Behavior::Wait(1)]);
    let mut s = State::new(&b);
    assert_eq!(tick(&b, &mut s, 1), (Status::Success, 1));
    assert_eq!(s, State::SelectState(vec![State::ActionState(0), State::WaitState(0)], 0));
}

#[test]
fn invert_turns_success_into_failure() {
    let b = Behavior::Invert(Box::new(Behavior::Action(Act::Succeed)));
    let mut s = State::new(&b);
    for _ in 0..3 {
        assert_eq!(tick(&b, &mut s, 4), (Status::Failure, 0));
    }
}

#[test]
fn invert_turns_failure_into_success() {
    let b = Behavior::Invert(Box::new(Behavior::Action(Act::Fail)));
    let mut s = State::new(&b);
    assert_eq!(tick(&b, &mut s, 4), (Status::Success, 0));
}

#[test]
fn invert_keeps_running() {
    let b = Behavior::Invert(Box::new(Behavior::Action(Act::Forever)));
    let mut s = State::new(&b);
    assert_eq!(tick(&b, &mut s, 4), (Status::Running, 4));
    let w: Behavior<Act> = Behavior::Invert(Box::new(Behavior::Wait(9)));
    let mut ws = State::new(&w);
    assert_eq!(tick(&w, &mut ws, 4), (Status::Running, 4));
}

#[test]
fn when_all_waits_for_every_child() {
    let b: Behavior<Act> = Behavior::WhenAll(vec![Behavior::Wait(1), Behavior::Wait(2)]);
    let mut s = State::new(&b);
    assert_eq!(tick(&b, &mut s, 1), (Status::Running, 1));
    assert_eq!(tick(&b, &mut s, 1), (Status::Success, 1));
}

#[test]
fn when_all_fails_when_one_child_fails() {
    let b = Behavior::WhenAll(vec![Behavior::Wait(3), Behavior::Action(Act::Fail)]);
    let mut s = State::new(&b);
    assert_eq!(tick(&b, &mut s, 2), (Status::Failure, 2));
    assert_eq!(s, State::WhenAllState(vec![State::WaitState(2), State::ActionState(0)]));
}

#[test]
fn while_repeats_the_body_until_the_budget_is_spent() {
    let b = Behavior::While(Box::new(Behavior::Pressed(A)), vec![Behavior::Action(Act::Count)]);
    let mut s = State::new(&b);
    assert_eq!(s.update(&b, 5, &holding(A)), (Status::Running, 5));
    match &s {
        State::WhileState(_, body, k) => {
            assert_eq!(body, &vec![State::ActionState(5)]);
            assert_eq!(*k, 0);
        }
        _ => panic!("not a loop state"),
    }
    assert_eq!(s.update(&b, 3, &holding(A)), (Status::Running, 3));
    assert_eq!(s.update(&b, 3, &none()), (Status::Success, 0));
    match &s {
        State::WhileState(_, body, _) => assert_eq!(body, &vec![State::ActionState(8)]),
        _ => panic!("not a loop state"),
    }
}

#[test]
fn while_with_released_condition_succeeds_at_once() {
    let b = Behavior::While(Box::new(Behavior::Pressed(A)), vec![Behavior::Action(Act::Count)]);
    let mut s = State::new(&b);
    assert_eq!(s.update(&b, 5, &holding(B)), (Status::Success, 0));
}

#[test]
fn while_with_instant_body_stops_the_tick() {
    let b = Behavior::While(Box::new(Behavior::Pressed(A)), vec![Behavior::Action(Act::Succeed)]);
    let mut s = State::new(&b);
    assert_eq!(s.update(&b, 5, &holding(A)), (Status::Running, 0));
}

#[test]
fn while_fails_when_its_body_fails() {
    let b = Behavior::While(Box::new(Behavior::Pressed(A)), vec![Behavior::Wait(1), Behavior::Action(Act::Fail)]);
    let mut s = State::new(&b);
    assert_eq!(s.update(&b, 5, &holding(A)), (Status::Failure, 1));
}

#[test]
fn same_inputs_give_same_runs() {
    let b = Behavior::Sequence(vec![
        Behavior::While(Box::new(Behavior::Pressed(A)), vec![Behavior::Action(Act::Count), Behavior::Wait(2)]),
        Behavior::Wait(4),
    ]);
    let steps = [(3, true), (2, true), (5, false), (1, false), (7, true)];
    let run = || {
        let mut s = State::new(&b);
        let mut out = Vec::new();
        for (dt, a) in steps {
            let input = if a { holding(A) } else { none() };
            out.push(s.update(&b, dt, &input));
        }
        (out, s)
    };
    let (o1, s1) = run();
    let (o2, s2) = run();
    assert_eq!(o1, o2);
    assert_eq!(s1, s2);
}

#[test]
fn empty_sequence_succeeds_and_empty_select_fails() {
    let seq: Behavior<Act> = Behavior::Sequence(vec![]);
    let mut s = State::new(&seq);
    assert_eq!(tick(&seq, &mut s, 3), (Status::Success, 0));
    let sel: Behavior<Act> = Behavior::Select(vec![]);
    let mut s = State::new(&sel);
    assert_eq!(tick(&sel, &mut s, 3), (Status::Failure, 0));
    let all: Behavior<Act> = Behavior::WhenAll(vec![]);
    let mut s = State::new(&all);
    assert_eq!(tick(&all, &mut s, 3), (Status::Success, 3));
}

#[test]
fn sequence_resumes_at_the_running_child() {
    let b: Behavior<Act> = Behavior::Sequence(vec![Behavior::Wait(2), Behavior::Wait(2)]);
    let mut s = State::new(&b);
    assert_eq!(tick(&b, &mut s, 3), (Status::Running, 3));
    assert_eq!(s, State::SequenceState(vec![State::WaitState(0), State::WaitState(1)], 1));
    assert_eq!(tick(&b, &mut s, 5), (Status::Success, 1));
    assert_eq!(s, State::SequenceState(vec![State::WaitState(0), State::WaitState(0)], 0));
}

#[test]
fn sequence_failure_resets_the_cursor() {
    let b = Behavior::Sequence(vec![Behavior::Wait(1), Behavior::Action(Act::Fail), Behavior::Wait(1)]);
    let mut s = State::new(&b);
    assert_eq!(tick(&b, &mut s, 4), (Status::Failure, 1));
    match &s {
        State::SequenceState(_, k) => assert_eq!(*k, 0),
        _ => panic!("not a sequence state"),
    }
}

#[test]
fn select_stops_at_the_first_success() {
    let b = Behavior::Select(vec![Behavior::Wait(2), Behavior::Action(Act::Fail)]);
    let mut s = State::new(&b);
    assert_eq!(tick(&b, &mut s, 1), (Status::Running, 1));
    assert_eq!(tick(&b, &mut s, 1), (Status::Success, 1));
}

#[test]
fn button_checks_take_no_time() {
    let p: Behavior<Act> = Behavior::Pressed(A);
    let r: Behavior<Act> = Behavior::Released(A);
    let mut ps = State::new(&p);
    let mut rs = State::new(&r);
    assert_eq!(ps.update(&p, 4, &holding(A)), (Status::Success, 0));
    assert_eq!(ps.update(&p, 4, &holding(B)), (Status::Failure, 0));
    assert_eq!(rs.update(&r, 4, &holding(A)), (Status::Failure, 0));
    assert_eq!(rs.update(&r, 4, &none()), (Status::Success, 0));
}

#[test]
fn held_buttons_follow_presses_and_releases() {
    let mut h = HeldButtons::new();
    assert!(!h.is_down(A));
    h.press(A);
    h.press(A);
    h.press(B);
    assert!(h.is_down(A) && h.is_down(B));
    h.release(A);
    assert!(!h.is_down(A));
    assert!(h.is_down(B));
    assert_eq!(h.down, vec![B]);
}

#[test]
fn status_invert_swaps_outcomes() {
    assert_eq!(Status::Success.invert(), Status::Failure);
    assert_eq!(Status::Failure.invert(), Status::Success);
    assert_eq!(Status::Running.invert(), Status::Running);
}

#[test]
fn action_progress_starts_fresh() {
    let b = Behavior::Sequence(vec![Behavior::Action(Act::Count), Behavior::Invert(Box::new(Behavior::Wait(7)))]);
    let s = State::new(&b);
    assert_eq!(
        s,
        State::SequenceState(vec![State::ActionState(0), State::InvertState(Box::new(State::WaitState(0)))], 0)
    );
}

#[test]
fn fresh_states_fit_their_trees() {
    let b = Behavior::While(
        Box::new(Behavior::Released(B)),
        vec![Behavior::Select(vec![Behavior::Action(Act::Count), Behavior::Wait(2)]), Behavior::WhenAll(vec![])],
    );
    let s = State::new(&b);
    assert!(s.is_state_of(&b));
}

#[test]
fn mismatched_states_are_caught() {
    let b: Behavior<Act> = Behavior::Sequence(vec![Behavior::Wait(2), Behavior::Wait(2)]);
    assert!(!State::<u64>::SequenceState(vec![State::WaitState(0)], 0).is_state_of(&b));
    assert!(!State::<u64>::SequenceState(vec![State::WaitState(0), State::WaitState(3)], 0).is_state_of(&b));
    assert!(!State::<u64>::SelectState(vec![State::WaitState(0), State::WaitState(0)], 0).is_state_of(&b));
    assert!(State::<u64>::SequenceState(vec![State::WaitState(2), State::WaitState(1)], 1).is_state_of(&b));
}

#[test]
fn replay_of_a_wait_adds_up_to_its_duration() {
    let b: Behavior<Act> = Behavior::Wait(10);
    let mut s = State::new(&b);
    let steps = vec![(3, none()), (0, none()), (4, holding(A)), (3, none())];
    let r = s.replay(&b, &steps);
    assert_eq!(
        r,
        vec![(Status::Running, 3), (Status::Running, 0), (Status::Running, 4), (Status::Success, 3)]
    );
    assert_eq!(r.iter().map(|x| x.1).sum::<u64>(), 10);
    assert_eq!(s, State::WaitState(0));
}

#[test]
fn replay_matches_tick_by_tick_updates() {
    let b = Behavior::Select(vec![
        Behavior::Sequence(vec![Behavior::Pressed(A), Behavior::Action(Act::Count), Behavior::Wait(3)]),
        Behavior::While(Box::new(Behavior::Released(B)), vec![Behavior::Wait(2)]),
    ]);
    let steps = vec![(2, holding(A)), (5, none()), (1, holding(B)), (4, holding(A)), (6, none())];
    let mut s1 = State::new(&b);
    let r1 = s1.replay(&b, &steps);
    let mut s2 = State::new(&b);
    let r2: Vec<(Status, u64)> = steps.iter().map(|(dt, h)| s2.update(&b, *dt, h)).collect();
    assert_eq!(r1, r2);
    assert_eq!(s1, s2);
    let mut s3 = State::new(&b);
    assert_eq!(s3.replay(&b, &steps), r1);
    assert_eq!(s3, s1);
}
