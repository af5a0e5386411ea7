//! A behavior tree for event logic and game AI.
//!
//! Each node of a tree reports `Success`, `Failure` or `Running` when ticked.
//! Leaf actions are combined with nodes such as `Wait`, `Sequence` and
//! `Select` into a `Behavior`, which never changes once built.
//!
//! For each `Behavior` there is a `State`, which tracks the behavior over
//! time. Time is counted in whole ticks of an application-chosen unit.

pub mod behavior;
pub mod laws;
pub mod state;
pub mod status;
pub mod window;

pub use behavior::{Action, Behavior, Button, HeldButtons};
pub use state::{State, StateView};
pub use status::Status;
pub use window::{NoWindow, Window, WindowSettings};
