//! The authoritative application state: the current boards and the
//! lifecycle flag the UI-facing side polls.
//!
//! One instance exists per process. Whoever shares it across threads must
//! guard it with an exclusive lock and hold that lock for each call here, so
//! that a reader observes either the pre- or the post-mutation state, never
//! a partial one; every method replaces the board sequence in one step.

use vstd::prelude::*;
use crate::board::Board;

verus! {

/// The coarse lifecycle the rendering side polls: it starts at `Created`,
/// reaches `Initialized` once the initialize command has completed, and
/// then moves `Loading` -> `Loaded` around every later command.
#[derive(Clone, Copy, Debug, PartialEq, Eq, Structural)]
pub enum Lifecycle {
    Created,
    Initializing,
    Initialized,
    Loading,
    Loaded,
}

/// The single authoritative state: the boards, and the lifecycle flag.
pub struct AppState {
    pub boards: Vec<Board>,
    pub lifecycle: Lifecycle,
}

impl AppState {
    /// A fresh state: no boards, lifecycle `Created`.
    pub fn new() -> (s: Self)
        ensures
            s.boards@.len() == 0,
            s.lifecycle == Lifecycle::Created,
    {
        AppState { boards: Vec::new(), lifecycle: Lifecycle::Created }
    }

    /// Replace the board sequence in one step.
    pub fn set_boards(&mut self, boards: Vec<Board>)
        ensures
            final(self).boards == boards,
            final(self).lifecycle == old(self).lifecycle,
    {
        self.boards = boards;
    }

    /// The initialize command was dispatched.
    pub fn initializing(&mut self)
        ensures
            final(self).boards == old(self).boards,
            final(self).lifecycle == Lifecycle::Initializing,
    {
        self.lifecycle = Lifecycle::Initializing;
    }

    /// The initialize command completed. Idempotent: marking an already
    /// initialized state again changes nothing.
    pub fn initialized(&mut self)
        ensures
            final(self).boards == old(self).boards,
            final(self).lifecycle == Lifecycle::Initialized,
    {
        self.lifecycle = Lifecycle::Initialized;
    }

    /// A post-initialization command was dispatched.
    pub fn loading(&mut self)
        ensures
            final(self).boards == old(self).boards,
            final(self).lifecycle == Lifecycle::Loading,
    {
        self.lifecycle = Lifecycle::Loading;
    }

    /// The most recently dispatched command completed, with or without an
    /// error: a loading state becomes queryable again rather than hanging,
    /// and any other state is left as it is.
    pub fn loaded(&mut self)
        ensures
            final(self).boards == old(self).boards,
            final(self).lifecycle == (if old(self).lifecycle == Lifecycle::Loading {
                Lifecycle::Loaded
            } else {
                old(self).lifecycle
            }),
    {
        if self.lifecycle == Lifecycle::Loading {
            self.lifecycle = Lifecycle::Loaded;
        }
    }
}

} // verus!
