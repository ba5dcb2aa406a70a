//! Waiting for the filesystem of control groups to be mounted on some path.
//!
//! Mounting is done in two steps: the directory is created, then the filesystem is
//! mounted on it. So the creation of the directory is not the end of the wait: the
//! filesystem is taken to be mounted once the directory is not empty.
//!
//! Watching the filesystem and looking into the directory is the embedding program's
//! part. What to do with what it sees is decided here.

use vstd::prelude::*;

verus! {

/// Which mechanism to use to detect the mount.
#[derive(Debug, Clone, Copy, PartialEq, Eq, Structural)]
pub enum MountWaitMechanism {
    /// Use the recommended notify watcher for the current platform.
    NotifyAuto,
    /// Repeatedly poll the filesystem to detect changes, every `interval` nanoseconds.
    NotifyPoll { interval: u64 },
}

/// The kind of an event of the filesystem.
#[derive(Debug, Clone, Copy, PartialEq, Eq, Structural)]
pub enum EventKind {
    Create,
    Remove,
    Other,
}

/// An event of the filesystem, as far as the wait is concerned.
#[derive(Debug, Clone, Copy, PartialEq, Eq, Structural)]
pub struct WatchEvent {
    pub kind: EventKind,
    /// Whether the wanted path is among the paths of the event.
    pub mentions_wanted_path: bool,
    /// Whether a path of the event lies directly in the wanted directory.
    pub mentions_child: bool,
}

/// Where the handling of an event stands.
#[derive(Debug, Clone, Copy, PartialEq, Eq, Structural)]
pub enum HandlerPhase {
    /// Waiting for an event.
    Idle,
    /// The directory was created; whether it is empty is being looked at.
    FirstLook,
    /// The directory was empty; it is being looked at again after a short wait.
    SecondLook,
}

/// What the handler does next.
#[derive(Debug, Clone, Copy, PartialEq, Eq, Structural)]
pub enum HandlerAction {
    /// Nothing: wait for the next event.
    Nothing,
    /// Look whether the wanted directory is empty, and report it.
    LookNow,
    /// Wait a little, look whether the wanted directory is empty, and report it.
    LookAfterShortWait,
    /// Call the callback with the wanted path: the filesystem is mounted.
    RunCallback,
    /// Hand the callback over to a watch of the wanted directory itself, which calls
    /// it once the directory is not empty.
    WatchDirectory,
}

/// The handler of the events of one wait.
#[derive(Debug, Clone, Copy, PartialEq, Eq, Structural)]
pub struct Handler {
    pub phase: HandlerPhase,
    /// Whether the callback is still to be called. It is called with success once.
    pub callback_pending: bool,
}

impl Handler {
    /// What an event leads to, for a handler that waits for one.
    pub open spec fn after_event(self, event: WatchEvent) -> (Handler, HandlerAction) {
        if event.kind == EventKind::Create && event.mentions_wanted_path {
            (Handler { phase: HandlerPhase::FirstLook, ..self }, HandlerAction::LookNow)
        } else if event.kind != EventKind::Remove && event.mentions_child {
            self.called()
        } else {
            (self, HandlerAction::Nothing)
        }
    }

    /// What calling the callback leads to: it is called if it is still pending.
    pub open spec fn called(self) -> (Handler, HandlerAction) {
        if self.callback_pending {
            (
                Handler { phase: HandlerPhase::Idle, callback_pending: false },
                HandlerAction::RunCallback,
            )
        } else {
            (Handler { phase: HandlerPhase::Idle, ..self }, HandlerAction::Nothing)
        }
    }

    /// What a look into the directory leads to. `watcher_alive` tells whether the
    /// watch still has an owner.
    pub open spec fn after_look(self, empty: bool, watcher_alive: bool) -> (
        Handler,
        HandlerAction,
    ) {
        if !empty {
            self.called()
        } else if self.phase == HandlerPhase::FirstLook {
            (
                Handler { phase: HandlerPhase::SecondLook, ..self },
                HandlerAction::LookAfterShortWait,
            )
        } else if watcher_alive && self.callback_pending {
            (
                Handler { phase: HandlerPhase::Idle, callback_pending: false },
                HandlerAction::WatchDirectory,
            )
        } else {
            self.called()
        }
    }

    /// A handler that waits for an event, with its callback pending.
    pub fn new() -> (h: Self)
        ensures
            h == (Handler { phase: HandlerPhase::Idle, callback_pending: true }),
    {
        Handler { phase: HandlerPhase::Idle, callback_pending: true }
    }

    fn run_callback(&mut self) -> (a: HandlerAction)
        ensures
            (*final(self), a) == old(self).called(),
    {
        self.phase = HandlerPhase::Idle;
        if self.callback_pending {
            self.callback_pending = false;
            HandlerAction::RunCallback
        } else {
            HandlerAction::Nothing
        }
    }

    /// Takes an event of the watch.
    pub fn on_event(&mut self, event: WatchEvent) -> (a: HandlerAction)
        requires
            old(self).phase == HandlerPhase::Idle,
        ensures
            (*final(self), a) == old(self).after_event(event),
    {
        if event.kind == EventKind::Create && event.mentions_wanted_path {
            // The directory that we want now exists. To check that the cgroupfs has
            // been mounted, we check whether the directory is empty or not.
            self.phase = HandlerPhase::FirstLook;
            HandlerAction::LookNow
        } else if event.kind != EventKind::Remove && event.mentions_child {
            // wanted_path has subdirectories/subfiles, assume that the cgroupfs was mounted
            self.run_callback()
        } else {
            HandlerAction::Nothing
        }
    }

    /// Takes what a look into the wanted directory gave.
    pub fn on_look(&mut self, empty: bool, watcher_alive: bool) -> (a: HandlerAction)
        requires
            old(self).phase == HandlerPhase::FirstLook || old(self).phase
                == HandlerPhase::SecondLook,
        ensures
            (*final(self), a) == old(self).after_look(empty, watcher_alive),
    {
        if !empty {
            self.run_callback()
        } else if self.phase == HandlerPhase::FirstLook {
            // wait a little bit, if mkdir is immediately followed by mount, it should not take long
            self.phase = HandlerPhase::SecondLook;
            HandlerAction::LookAfterShortWait
        } else if watcher_alive && self.callback_pending {
            // Okay, it's still empty, we may have to wait longer.
            self.phase = HandlerPhase::Idle;
            self.callback_pending = false;
            HandlerAction::WatchDirectory
        } else {
            self.run_callback()
        }
    }
}

/// The callback is called with success at most once: once it was called or handed
/// over, no event and no look calls it again.
pub proof fn lemma_callback_runs_once(h: Handler, event: WatchEvent, empty: bool, alive: bool)
    requires
        !h.callback_pending,
    ensures
        !(h.after_event(event).1 is RunCallback),
        !(h.after_event(event).1 is WatchDirectory),
        !h.after_event(event).0.callback_pending,
        !(h.after_look(empty, alive).1 is RunCallback),
        !(h.after_look(empty, alive).1 is WatchDirectory),
        !h.after_look(empty, alive).0.callback_pending,
{
}

} // verus!
