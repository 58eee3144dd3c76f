//! Making a shared context once.

use vstd::prelude::*;

verus! {

/// Remembers whether the context has been made.
#[derive(Debug)]
pub struct Once {
    done: bool,
}

impl Once {
    /// Whether the context has been made.
    pub closed spec fn is_done(&self) -> bool {
        self.done
    }

    /// Nothing has been made yet.
    pub fn new() -> (once: Once)
        ensures
            !once.is_done(),
    {
        Once { done: false }
    }

    /// Whether the context has been made.
    pub fn done(&self) -> (done: bool)
        ensures
            done == self.is_done(),
    {
        self.done
    }
}

/// Makes the context with `init` unless it has been made before: then
/// `init` is not called and nothing is returned.
pub fn try_init_single_thread<T, F: FnOnce() -> T>(once: &mut Once, init: F) -> (made: Option<T>)
    requires
        init.requires(()),
    ensures
        final(once).is_done(),
        old(once).is_done() ==> made is None,
        !old(once).is_done() ==> (made matches Some(value) && init.ensures((), value)),
{
    if once.done {
        None
    } else {
        once.done = true;
        Some(init())
    }
}

/// Makes the context with `init`; it must not have been made before.
pub fn init_single_thread<T, F: FnOnce() -> T>(once: &mut Once, init: F) -> (made: T)
    requires
        !old(once).is_done(),
        init.requires(()),
    ensures
        final(once).is_done(),
        init.ensures((), made),
{
    match try_init_single_thread(once, init) {
        Some(value) => value,
        None => vstd::pervasive::unreached(),
    }
}

} // verus!
