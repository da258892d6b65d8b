//! The `index` command's decisions: how old an index is in words, which
//! directories the index skips, when an existing index is fresh enough, and
//! the debounce of watch mode.

use vstd::prelude::*;
use crate::text::{chars_of, decimal, decimal_chars, push_str, string_from_chars};

verus! {

/// The current time in seconds since the Unix epoch, or 0 when the system
/// clock is before the epoch (`SystemTime::now().duration_since(UNIX_EPOCH)`).
/// Nothing is promised of the value: it is the clock's reading.
#[verifier::external_body]
fn unix_now() -> (now: u64) {
    std::time::SystemTime::now().duration_since(std::time::UNIX_EPOCH).map(|d| d.as_secs()).unwrap_or(
        0,
    )
}

/// How long ago, in words, `elapsed` seconds are: whole seconds below a
/// minute, whole minutes below an hour, whole hours below a day, else whole
/// days.
pub open spec fn elapsed_in_words(elapsed: nat) -> Seq<char> {
    if elapsed < 60 {
        decimal(elapsed) + " seconds ago"@
    } else if elapsed < 3600 {
        decimal(elapsed / 60) + " minutes ago"@
    } else if elapsed < 86400 {
        decimal(elapsed / 3600) + " hours ago"@
    } else {
        decimal(elapsed / 86400) + " days ago"@
    }
}

/// How long before `now` the instant `timestamp` was; a timestamp in the
/// future counts as now.
pub open spec fn age_in_words(now: u64, timestamp: u64) -> Seq<char> {
    elapsed_in_words(if now >= timestamp {
        (now - timestamp) as nat
    } else {
        0
    })
}

/// The age of `timestamp` seen from `now`, in words.
pub fn humanize_age(now: u64, timestamp: u64) -> (r: String)
    ensures
        r@ == age_in_words(now, timestamp),
{
    let diff = now.saturating_sub(timestamp);
    let (n, unit): (u64, &str) = if diff < 60 {
        (diff, " seconds ago")
    } else if diff < 3600 {
        (diff / 60, " minutes ago")
    } else if diff < 86400 {
        (diff / 3600, " hours ago")
    } else {
        (diff / 86400, " days ago")
    };
    let mut v = decimal_chars(n);
    push_str(&mut v, unit);
    string_from_chars(&v)
}

/// The age of `timestamp` as of the current time, in words.
pub fn chrono_humanize(timestamp: u64) -> (r: String)
    ensures
        exists|now: u64| r@ == age_in_words(now, timestamp),
{
    let now = unix_now();
    humanize_age(now, timestamp)
}

// ---------------------------------------------------------------------------
// Build decisions
// ---------------------------------------------------------------------------

/// The directories the index never descends into: build outputs and
/// dependencies, the test directories unless tests are wanted, then the
/// user's own exclusions.
pub open spec fn index_excluded_dirs(include_tests: bool, extra: Seq<Seq<char>>) -> Seq<Seq<char>> {
    let base = seq!["node_modules"@, "target"@, ".git"@, "dist"@, "build"@];
    let tests = if include_tests {
        Seq::<Seq<char>>::empty()
    } else {
        seq!["test"@, "tests"@, "__tests__"@, "spec"@]
    };
    base + tests + extra
}

/// The texts held by a vector of strings.
pub open spec fn string_texts(v: Seq<String>) -> Seq<Seq<char>> {
    v.map_values(|s: String| s@)
}

fn push_name(v: &mut Vec<String>, s: &str)
    ensures
        string_texts(final(v)@) == string_texts(old(v)@).push(s@),
{
    let c = chars_of(s);
    v.push(string_from_chars(&c));
    assert(string_texts(v@) =~= string_texts(old(v)@).push(s@));
}

/// The directories excluded when building the index.
pub fn index_exclude_dirs(include_tests: bool, exclude: &Vec<String>) -> (r: Vec<String>)
    ensures
        string_texts(r@) == index_excluded_dirs(include_tests, string_texts(exclude@)),
{
    let mut r: Vec<String> = Vec::new();
    push_name(&mut r, "node_modules");
    push_name(&mut r, "target");
    push_name(&mut r, ".git");
    push_name(&mut r, "dist");
    push_name(&mut r, "build");
    if !include_tests {
        push_name(&mut r, "test");
        push_name(&mut r, "tests");
        push_name(&mut r, "__tests__");
        push_name(&mut r, "spec");
    }
    let ghost head = string_texts(r@);
    let mut i: usize = 0;
    while i < exclude.len()
        invariant
            i <= exclude.len(),
            string_texts(r@) == head + string_texts(exclude@).take(i as int),
        decreases exclude.len() - i,
    {
        let ghost prev = string_texts(r@);
        r.push(exclude[i].clone());
        i = i + 1;
        assert(string_texts(r@) =~= prev.push(exclude@[i - 1]@));
        assert(string_texts(exclude@).take(i as int) =~= string_texts(exclude@).take(
            i - 1,
        ).push(exclude@[i - 1]@));
    }
    assert(string_texts(exclude@).take(exclude.len() as int) == string_texts(exclude@));
    r
}

/// An index created less than five minutes before `now` is recent.
pub open spec fn index_is_recent(now: u64, created_at: u64) -> bool {
    now - created_at < 300
}

/// Whether `index` may skip rebuilding an existing index created at
/// `created_at`: only when neither forced nor watching, and the index is
/// recent. The age is only computed in that case, and requires the index not
/// to be stamped after `now`.
pub fn should_reuse_index(force: bool, watch_mode: bool, now: u64, created_at: u64) -> (r: bool)
    requires
        !force && !watch_mode ==> created_at <= now,
    ensures
        r == (!force && !watch_mode && index_is_recent(now, created_at)),
{
    !watch_mode && !force && now - created_at < 300
}

/// Whether a symbol index still describes the working tree, from what git
/// reported: an index is taken as fresh when the repository cannot be
/// opened; it is stale when the status cannot be read or shows changes, or
/// when both the head commit and the index's commit are known and differ.
pub open spec fn index_fresh(
    repo_opened: bool,
    status_clean: Option<bool>,
    head: Option<Seq<char>>,
    index_commit: Option<Seq<char>>,
) -> bool {
    if !repo_opened {
        true
    } else {
        match status_clean {
            None => false,
            Some(false) => false,
            Some(true) => match (head, index_commit) {
                (Some(h), Some(c)) => c == h,
                _ => true,
            },
        }
    }
}

/// Whether the symbol index is fresh; see `index_fresh`. `status_clean` is
/// `None` when the status could not be read.
pub fn is_index_fresh(
    repo_opened: bool,
    status_clean: Option<bool>,
    head: &Option<String>,
    index_commit: &Option<String>,
) -> (r: bool)
    ensures
        r == index_fresh(
            repo_opened,
            status_clean,
            match head {
                Some(h) => Some(h@),
                None => None,
            },
            match index_commit {
                Some(c) => Some(c@),
                None => None,
            },
        ),
{
    if !repo_opened {
        return true;
    }
    match status_clean {
        None => false,
        Some(false) => false,
        Some(true) => match (head, index_commit) {
            (Some(h), Some(c)) => {
                let hv = chars_of(h.as_str());
                let cv = chars_of(c.as_str());
                crate::text::chars_eq(&cv, &hv)
            },
            _ => true,
        },
    }
}

// ---------------------------------------------------------------------------
// Watch-mode debounce
// ---------------------------------------------------------------------------

/// What the watch loop observed since its last step.
#[derive(Clone, Copy, Debug, PartialEq, Eq, Structural)]
pub enum WatchEvent {
    /// A file change was reported.
    Changed,
    /// No report within the poll interval; `quiet_ms` milliseconds have
    /// passed since the last change.
    Timeout { quiet_ms: u64 },
    /// The watcher is gone.
    Disconnected,
}

/// What the watch loop does next.
#[derive(Clone, Copy, Debug, PartialEq, Eq, Structural)]
pub enum WatchAction {
    /// Keep waiting.
    Wait,
    /// Rebuild the index now.
    Rebuild,
    /// Leave the loop.
    Stop,
}

/// The debounce delay in milliseconds.
pub open spec fn debounce_ms() -> u64 {
    500
}

/// One step of the watch loop: a change marks a rebuild as pending (and
/// restarts the quiet period); a timeout with a pending rebuild and at least
/// the debounce delay of quiet triggers it; a disconnect stops the loop.
/// Returns the new "rebuild pending" flag and the action.
pub open spec fn watch_transition(pending: bool, event: WatchEvent) -> (bool, WatchAction) {
    match event {
        WatchEvent::Changed => (true, WatchAction::Wait),
        WatchEvent::Timeout { quiet_ms } => if pending && quiet_ms >= debounce_ms() {
            (false, WatchAction::Rebuild)
        } else {
            (pending, WatchAction::Wait)
        },
        WatchEvent::Disconnected => (pending, WatchAction::Stop),
    }
}

/// The watch loop's decision for one event.
pub fn watch_step(pending: bool, event: WatchEvent) -> (r: (bool, WatchAction))
    ensures
        r == watch_transition(pending, event),
{
    match event {
        WatchEvent::Changed => (true, WatchAction::Wait),
        WatchEvent::Timeout { quiet_ms } => {
            if pending && quiet_ms >= 500 {
                (false, WatchAction::Rebuild)
            } else {
                (pending, WatchAction::Wait)
            }
        },
        WatchEvent::Disconnected => (pending, WatchAction::Stop),
    }
}

/// A rebuild happens only when a change is pending, and it clears the
/// pending change; a change never triggers a rebuild by itself.
pub proof fn law_watch_rebuilds_only_pending(pending: bool, event: WatchEvent)
    ensures
        watch_transition(pending, event).1 == WatchAction::Rebuild ==> pending
            && !watch_transition(pending, event).0,
        event == WatchEvent::Changed ==> watch_transition(pending, event) == (
            true,
            WatchAction::Wait,
        ),
{
}

} // verus!
