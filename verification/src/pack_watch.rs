//! The decisions of `pack --watch`: when a reported change regenerates the
//! output, and when the watch stops.

use vstd::prelude::*;

verus! {

/// What the watcher reports.
#[derive(Clone, Copy, Debug, PartialEq, Eq, Structural)]
pub enum PackWatchEvent {
    /// A file changed; `since_rebuild_ms` milliseconds have passed since the
    /// output was last regenerated.
    Changed { since_rebuild_ms: u64 },
    /// Nothing happened within the poll interval.
    Timeout,
    /// The watcher is gone.
    Disconnected,
}

/// What the watch loop does for an event.
#[derive(Clone, Copy, Debug, PartialEq, Eq, Structural)]
pub enum PackWatchAction {
    /// Ignore a change that follows the last regeneration too closely.
    Skip,
    /// Scan the repository again and rewrite the output.
    Regenerate,
    /// Keep waiting.
    Wait,
    /// Leave the loop.
    Stop,
}

/// Changes within this many milliseconds of a regeneration are ignored.
pub const PACK_DEBOUNCE_MS: u64 = 500;

pub open spec fn pack_watch_action(event: PackWatchEvent) -> PackWatchAction {
    match event {
        PackWatchEvent::Changed { since_rebuild_ms } => if since_rebuild_ms < PACK_DEBOUNCE_MS {
            PackWatchAction::Skip
        } else {
            PackWatchAction::Regenerate
        },
        PackWatchEvent::Timeout => PackWatchAction::Wait,
        PackWatchEvent::Disconnected => PackWatchAction::Stop,
    }
}

/// The action for one watcher event; see `pack_watch_action`.
pub fn pack_watch_step(event: PackWatchEvent) -> (r: PackWatchAction)
    ensures
        r == pack_watch_action(event),
{
    match event {
        PackWatchEvent::Changed { since_rebuild_ms } => {
            if since_rebuild_ms < PACK_DEBOUNCE_MS {
                PackWatchAction::Skip
            } else {
                PackWatchAction::Regenerate
            }
        },
        PackWatchEvent::Timeout => PackWatchAction::Wait,
        PackWatchEvent::Disconnected => PackWatchAction::Stop,
    }
}

/// Whether watching goes on after a regeneration: it stops when secrets
/// were found (`secrets_found` counts them, when a scan ran) and the policy
/// is to fail on secrets.
pub fn keep_watching(fail_on_secrets: bool, secrets_found: Option<usize>) -> (r: bool)
    ensures
        r == !(fail_on_secrets && (secrets_found matches Some(n) && n > 0)),
{
    match secrets_found {
        Some(n) => !(fail_on_secrets && n > 0),
        None => true,
    }
}

/// A regeneration never directly follows another within the debounce
/// window: a change reported sooner is skipped.
pub proof fn law_debounce(since_rebuild_ms: u64)
    ensures
        pack_watch_action(PackWatchEvent::Changed { since_rebuild_ms }) == PackWatchAction::Regenerate
            <==> since_rebuild_ms >= PACK_DEBOUNCE_MS,
{
}

} // verus!
