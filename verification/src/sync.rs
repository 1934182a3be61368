//! Synchronization decisions: version-gated atomic cache replacement and the
//! bounded start-up rendezvous.
//!
//! The background loop that fetches payloads, sleeps and polls the stop flag
//! is ordinary client code; it feeds each outcome through these functions,
//! which decide whether the cache is replaced and whether the single-slot
//! start-up channel is written.

use vstd::prelude::*;

use crate::evaluate::Repository;
use crate::FPError;

verus! {

/// What triggered a synchronization pass.
#[derive(Clone, Copy, Debug)]
pub enum SyncType {
    /// The realtime push channel asked for an immediate fetch.
    Realtime,
    /// The periodic polling loop.
    Polling,
}

/// Whether a fetched repository version strictly supersedes the cached one:
/// a versioned repository supersedes an unversioned cache, and nothing is
/// superseded by an unversioned fetch.
pub open spec fn spec_version_newer(new: Option<u128>, old: Option<u128>) -> bool {
    match (new, old) {
        (Some(n), Some(o)) => n > o,
        (Some(n), None) => true,
        (None, _) => false,
    }
}

/// Whether `new` strictly supersedes `old`.
pub fn version_newer(new: &Option<u128>, old: &Option<u128>) -> (r: bool)
    ensures
        r == spec_version_newer(*new, *old),
{
    match (new, old) {
        (Some(n), Some(o)) => *n > *o,
        (Some(_), None) => true,
        (None, _) => false,
    }
}

/// Applies one fetched repository to the cache: the cache is replaced, as a
/// whole, exactly when the fetched version strictly supersedes the cached
/// one, and the displaced snapshot is handed back so the caller can notify
/// its update callback with the old and new pair.  A fetch at or below the
/// cached version changes nothing and hands nothing back.
pub fn apply_fetch(repo: &mut Repository, fetched: Repository) -> (r: Option<Repository>)
    ensures
        spec_version_newer(fetched@.version, old(repo)@.version) ==> {
            &&& final(repo)@ == fetched@
            &&& r matches Some(prev) && prev@ == old(repo)@
        },
        !spec_version_newer(fetched@.version, old(repo)@.version) ==> {
            &&& final(repo)@ == old(repo)@
            &&& r is None
        },
{
    if version_newer(&fetched.version, &repo.version) {
        let mut displaced = fetched;
        core::mem::swap(repo, &mut displaced);
        Some(displaced)
    } else {
        None
    }
}

/// Whether the background loop should write this iteration's outcome into
/// the single-slot start-up channel: never without a deadline, never twice,
/// on the first success always, and on a failure only once the deadline
/// cannot be met any more.
pub fn should_send(
    result: Result<(), FPError>,
    has_deadline: bool,
    timed_out: bool,
    is_send: bool,
) -> (r: Option<Result<(), FPError>>)
    ensures
        (r is Some) == (has_deadline && !is_send && (result is Ok || timed_out)),
        r matches Some(x) ==> ((x is Ok) == (result is Ok)),
        r matches Some(Err(e)) ==> result matches Err(e0) && e == e0,
{
    if !has_deadline {
        return None;
    }
    if result.is_ok() {
        if !is_send {
            Some(Ok(()))
        } else {
            None
        }
    } else {
        if !is_send && timed_out {
            Some(result)
        } else {
            None
        }
    }
}

/// Whether the bounded start-up wait can no longer be met: with a deadline
/// of `start_wait_ms`, waiting one more refresh interval past the elapsed
/// time would exceed it.  Without a deadline there is nothing to time out.
pub fn init_timeout_fn(start_wait_ms: Option<u64>, interval_ms: u64, elapsed_ms: u64) -> (r:
    Option<bool>)
    ensures
        match start_wait_ms {
            None => r is None,
            Some(w) => r == Some(elapsed_ms + interval_ms > w),
        },
{
    match start_wait_ms {
        None => None,
        Some(w) => {
            let total = elapsed_ms as u128 + interval_ms as u128;
            Some(total > w as u128)
        },
    }
}

/// Cached versions never regress: whatever version a fetch carries, the
/// version the cache holds after the version gate is at least the version it
/// held before.
pub proof fn lemma_cache_version_monotonic(cached: Option<u128>, fetched: Option<u128>)
    ensures
        ({
            let after = if spec_version_newer(fetched, cached) {
                fetched
            } else {
                cached
            };
            match (cached, after) {
                (Some(o), Some(a)) => a >= o,
                (Some(o), None) => false,
                (None, _) => true,
            }
        }),
{
}

} // verus!
