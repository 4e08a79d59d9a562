//! File watching: whether a watcher has been started, and what each
//! command does when none has.

use vstd::prelude::*;

verus! {

/// The file watcher, once one has been started (of whatever type the
/// application uses).
pub struct FileWatcherState<W>(pub Option<W>);

impl<W> FileWatcherState<W> {
    /// No watcher yet: the first request to watch starts one.
    pub fn new() -> (r: Self)
        ensures
            r.0 is None,
    {
        FileWatcherState(None)
    }

    /// Whether a watcher has been started.
    pub fn is_initialized(&self) -> (r: bool)
        ensures
            r == self.0 is Some,
    {
        self.0.is_some()
    }

    /// Stopping a watch needs a watcher: an error where none was started.
    pub fn require_watcher(&self) -> (r: Result<(), String>)
        ensures
            r is Ok <==> self.0 is Some,
            r matches Err(e) ==> e@ == "File watcher not initialized"@,
    {
        if self.0.is_some() {
            Ok(())
        } else {
            Err("File watcher not initialized".to_owned())
        }
    }
}

} // verus!
