//! Definition of behavior trees, the input they read and the leaf actions
//! that an application plugs into them.

use crate::status::Status;
use vstd::prelude::*;

verus! {

/// An application-chosen identifier of a button (a key, a mouse button, ...).
#[derive(PartialEq, Eq, Structural, Clone, Copy, Debug)]
pub struct Button {
    pub code: u64,
}

/// The buttons held down at the time of a tick.
#[derive(Clone, Debug)]
pub struct HeldButtons {
    pub down: Vec<Button>,
}

impl View for HeldButtons {
    type V = Seq<Button>;

    open spec fn view(&self) -> Seq<Button> {
        self.down@
    }
}

impl HeldButtons {
    /// An input with no button held down.
    pub fn new() -> (r: HeldButtons)
        ensures
            r@ == Seq::<Button>::empty(),
    {
        HeldButtons { down: Vec::new() }
    }

    /// Whether `b` is held down.
    pub fn is_down(&self, b: Button) -> (r: bool)
        ensures
            r == self@.contains(b),
    {
        let mut i: usize = 0;
        while i < self.down.len()
            invariant
                i <= self@.len(),
                forall|j: int| 0 <= j < i ==> self@[j] != b,
            decreases self@.len() - i,
        {
            if self.down[i] == b {
                return true;
            }
            i = i + 1;
        }
        false
    }

    /// Records that `b` went down.
    pub fn press(&mut self, b: Button)
        ensures
            forall|c: Button| final(self)@.contains(c) <==> (old(self)@.contains(c) || c == b),
    {
        if !self.is_down(b) {
            self.down.push(b);
        }
        assert forall|c: Button| final(self)@.contains(c) <==> (old(self)@.contains(c) || c == b) by {
            if old(self)@.contains(c) {
                let j = choose|j: int| 0 <= j < old(self)@.len() && old(self)@[j] == c;
                assert(final(self)@[j] == c);
            }
            if c == b && !old(self)@.contains(c) {
                assert(final(self)@[old(self)@.len() as int] == c);
            }
        }
    }

    /// Records that `b` went up.
    pub fn release(&mut self, b: Button)
        ensures
            forall|c: Button| final(self)@.contains(c) <==> (old(self)@.contains(c) && c != b),
    {
        let mut kept: Vec<Button> = Vec::new();
        let mut i: usize = 0;
        while i < self.down.len()
            invariant
                i <= self@.len(),
                self@ == old(self)@,
                forall|c: Button|
                    kept@.contains(c) <==> (c != b && exists|j: int| 0 <= j < i && self@[j] == c),
            decreases self@.len() - i,
        {
            let c = self.down[i];
            let ghost before = kept@;
            if c != b {
                kept.push(c);
            }
            assert forall|x: Button|
                kept@.contains(x) <==> (x != b && exists|j: int| 0 <= j < i + 1 && self@[j] == x) by {
                if x != b && exists|j: int| 0 <= j < i + 1 && self@[j] == x {
                    let j = choose|j: int| 0 <= j < i + 1 && self@[j] == x;
                    if j < i {
                        assert(before.contains(x));
                        let k = choose|k: int| 0 <= k < before.len() && before[k] == x;
                        assert(kept@[k] == x);
                    } else {
                        assert(kept@[kept@.len() - 1] == x);
                    }
                }
                if kept@.contains(x) {
                    let k = choose|k: int| 0 <= k < kept@.len() && kept@[k] == x;
                    if k < before.len() {
                        assert(before[k] == x);
                        assert(before.contains(x));
                    } else {
                        assert(self@[i as int] == x);
                    }
                }
            }
            i = i + 1;
        }
        assert forall|c: Button| kept@.contains(c) <==> (old(self)@.contains(c) && c != b) by {
            if old(self)@.contains(c) {
                let j = choose|j: int| 0 <= j < old(self)@.len() && old(self)@[j] == c;
                assert(self@[j] == c);
            }
        }
        self.down = kept;
    }
}

/// A leaf action supplied by the application.
///
/// `S` is the action's own progress, kept in the state tree between ticks.
/// `initial` and `step` say what the action does; `start` and `tick` do it.
pub trait Action<S>: Sized {
    /// The progress of a fresh run of this action.
    spec fn initial(&self) -> S;

    /// What one tick with budget `dt` reports, how much of `dt` it uses, and
    /// the progress after it.
    spec fn step(&self, dt: u64, progress: S, input: HeldButtons) -> (Status, u64, S);

    /// Makes the progress of a fresh run.
    fn start(&self) -> (r: S)
        ensures
            r == self.initial(),
    ;

    /// Runs one tick with budget `dt`, uses no more than `dt`.
    fn tick(&self, dt: u64, progress: &mut S, input: &HeldButtons) -> (r: (Status, u64))
        ensures
            r.1 <= dt,
            (r.0, r.1, *final(progress)) == self.step(dt, *old(progress), *input),
    ;
}

/// A behavior tree. It is never changed once built, and several state
/// trees may follow one behavior tree.
#[derive(Debug, PartialEq)]
pub enum Behavior<A> {
    /// A leaf action of the application.
    Action(A),
    /// Succeeds once this much time has passed.
    Wait(u64),
    /// Succeeds if the button is down, fails otherwise; takes no time.
    Pressed(Button),
    /// Succeeds if the button is up, fails otherwise; takes no time.
    Released(Button),
    /// Swaps the child's `Success` and `Failure`.
    Invert(Box<Behavior<A>>),
    /// Runs the children in order while they succeed.
    Sequence(Vec<Behavior<A>>),
    /// Runs the children in order until one succeeds.
    Select(Vec<Behavior<A>>),
    /// Runs all children side by side; succeeds when all succeed.
    WhenAll(Vec<Behavior<A>>),
    /// Runs the body, as a sequence, over and over while the condition
    /// succeeds.
    While(Box<Behavior<A>>, Vec<Behavior<A>>),
}

} // verus!
