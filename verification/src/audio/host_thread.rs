//! Where audio device queries run.  Only Windows needs a dedicated host
//! thread for them; everywhere else a query runs inline on the caller.
use vstd::prelude::*;

verus! {

/// Runs `f` inline and returns what it returns.
pub fn on_audio_host_thread<T, F: FnOnce() -> T>(f: F) -> (r: T)
    requires
        f.requires(()),
    ensures
        f.ensures((), r),
{
    f()
}

/// A guard for code that queries devices directly; inline queries are always
/// on the right thread, so there is nothing to check.
pub fn debug_assert_on_audio_host_thread() {
}

} // verus!
