//! The registry updater: which files of the remote listing are fetched, what
//! each download counts for, and how long the updater waits between syncs.

use vstd::prelude::*;
use vstd::string::StringExecFns;

use crate::error::{AtlasError, AtlasErrorView};
use crate::text::{ends_with, str_ends_with};

verus! {

broadcast use vstd::string::group_string_axioms;

/// An item of the remote directory listing.
#[derive(Debug, Clone)]
pub struct GitHubContent {
    /// The item's name.
    pub name: String,
    /// Where its content can be downloaded, if it is a file.
    pub download_url: Option<String>,
    /// `file` or `dir`.
    pub item_type: String,
}

/// The address from which a listing item is downloaded: only JSON files that
/// have a download address are fetched.
pub open spec fn spec_download_url(item: GitHubContent) -> Option<Seq<char>> {
    if item.item_type@ == "file"@ && ends_with(item.name@, ".json"@) {
        match item.download_url {
            Some(u) => Some(u@),
            None => None,
        }
    } else {
        None
    }
}

/// The address from which a listing item is downloaded, if it is fetched.
pub fn download_url(item: &GitHubContent) -> (r: Option<String>)
    ensures
        match r {
            Some(u) => spec_download_url(*item) == Some(u@),
            None => spec_download_url(*item) is None,
        },
{
    if crate::keyed::str_eq(item.item_type.as_str(), "file") && str_ends_with(
        item.name.as_str(),
        ".json",
    ) {
        match &item.download_url {
            Some(u) => Some(u.clone()),
            None => None,
        }
    } else {
        None
    }
}

/// What came of downloading one file of the listing.
#[derive(Debug)]
pub enum DownloadOutcome {
    /// The request failed, with the client's message.
    RequestFailed(String),
    /// The server answered with an error status, with the client's message.
    StatusFailed(String),
    /// The answer's body could not be read.
    BodyUnreadable,
    /// The file could not be written, with the system's message.
    WriteFailed(String),
    /// The file was written.
    Written,
}

/// The count of synced files after one download, or the error that ends the
/// sync: a failed request or error status ends it with the client's message, a
/// failed write ends it naming the file; an unreadable body is skipped; a
/// written file is counted.
pub open spec fn spec_record_download(count: nat, name: Seq<char>, outcome: DownloadOutcome) -> Result<
    nat,
    AtlasErrorView,
> {
    match outcome {
        DownloadOutcome::RequestFailed(m) => Err(AtlasErrorView::UpdaterFailed(m@)),
        DownloadOutcome::StatusFailed(m) => Err(AtlasErrorView::UpdaterFailed(m@)),
        DownloadOutcome::BodyUnreadable => Ok(count),
        DownloadOutcome::WriteFailed(m) => Err(
            AtlasErrorView::UpdaterFailed("Failed to write file "@ + name + ": "@ + m@),
        ),
        DownloadOutcome::Written => Ok(count + 1),
    }
}

/// Counts one download of a sync.
pub fn record_download(count: usize, name: &str, outcome: DownloadOutcome) -> (r: Result<usize, AtlasError>)
    requires
        count < usize::MAX,
    ensures
        match r {
            Ok(n) => spec_record_download(count as nat, name@, outcome) == Ok::<nat, AtlasErrorView>(n as nat),
            Err(e) => spec_record_download(count as nat, name@, outcome) == Err::<nat, AtlasErrorView>(e@),
        },
{
    match outcome {
        DownloadOutcome::RequestFailed(m) => Err(AtlasError::UpdaterFailed(m)),
        DownloadOutcome::StatusFailed(m) => Err(AtlasError::UpdaterFailed(m)),
        DownloadOutcome::BodyUnreadable => Ok(count),
        DownloadOutcome::WriteFailed(m) => Err(
            AtlasError::UpdaterFailed(
                String::from_str("Failed to write file ").concat(name).concat(": ").concat(
                    m.as_str(),
                ),
            ),
        ),
        DownloadOutcome::Written => Ok(count + 1),
    }
}

/// The error that ends a sync whose output directory cannot be created.
pub fn output_dir_failed(dir: &str, message: &str) -> (e: AtlasError)
    ensures
        e@ == AtlasErrorView::UpdaterFailed(
            "Failed to create output directory "@ + dir@ + ": "@ + message@,
        ),
{
    AtlasError::UpdaterFailed(
        String::from_str("Failed to create output directory ").concat(dir).concat(": ").concat(
            message,
        ),
    )
}

/// The wait after a sync that succeeded: 24 hours, in seconds.
pub const SYNC_INTERVAL_SECS: u64 = 86400;

/// The first wait after a sync that failed: one hour, in seconds.
pub const RETRY_DELAY_SECS: u64 = 3600;

/// The wait that follows a failure's wait: twice as long, but no longer than a day.
pub open spec fn next_fail_delay(d: int) -> int {
    if 2 * d < SYNC_INTERVAL_SECS {
        2 * d
    } else {
        SYNC_INTERVAL_SECS as int
    }
}

/// The waits of the updater between syncs: a day after a success; after
/// failures, an hour that doubles with each failure in a row, up to a day.
#[derive(Debug)]
pub struct Backoff {
    fail_delay: u64,
}

impl Backoff {
    /// The wait that the next failure will bring.
    pub closed spec fn fail_delay(self) -> u64 {
        self.fail_delay
    }

    /// The wait after a failure lies between an hour and a day.
    #[verifier::type_invariant]
    closed spec fn bounded(self) -> bool {
        RETRY_DELAY_SECS <= self.fail_delay <= SYNC_INTERVAL_SECS
    }

    /// The waits of an updater that has not failed yet.
    pub fn new() -> (b: Backoff)
        ensures
            b.fail_delay() == RETRY_DELAY_SECS,
    {
        Backoff { fail_delay: RETRY_DELAY_SECS }
    }

    /// The wait after a sync that succeeded; the next failure waits an hour again.
    pub fn on_success(&mut self) -> (wait: u64)
        ensures
            wait == SYNC_INTERVAL_SECS,
            final(self).fail_delay() == RETRY_DELAY_SECS,
    {
        self.fail_delay = RETRY_DELAY_SECS;
        SYNC_INTERVAL_SECS
    }

    /// The wait after a sync that failed; the next failure waits twice as long,
    /// but no longer than a day.
    pub fn on_failure(&mut self) -> (wait: u64)
        ensures
            wait == old(self).fail_delay(),
            final(self).fail_delay() == next_fail_delay(old(self).fail_delay() as int),
            RETRY_DELAY_SECS <= wait <= SYNC_INTERVAL_SECS,
    {
        proof {
            use_type_invariant(&*self);
        }
        let d = self.fail_delay;
        let doubled = d * 2;
        self.fail_delay = if doubled < SYNC_INTERVAL_SECS {
            doubled
        } else {
            SYNC_INTERVAL_SECS
        };
        d
    }
}

/// The wait after `n` failures in a row (since the start or the last success):
/// an hour doubled `n` times, capped at a day.
pub open spec fn wait_after_failures(n: nat) -> int
    decreases n,
{
    if n == 0 {
        RETRY_DELAY_SECS as int
    } else {
        next_fail_delay(wait_after_failures((n - 1) as nat))
    }
}

/// The waits after failures in a row grow from an hour and never pass a day:
/// an hour, two, four, eight, sixteen, then a day from then on.
pub proof fn law_backoff_bounded(n: nat)
    ensures
        RETRY_DELAY_SECS <= wait_after_failures(n) <= SYNC_INTERVAL_SECS,
        n >= 5 ==> wait_after_failures(n) == SYNC_INTERVAL_SECS,
        wait_after_failures(0) == 3600,
        wait_after_failures(1) == 7200,
        wait_after_failures(2) == 14400,
        wait_after_failures(3) == 28800,
        wait_after_failures(4) == 57600,
    decreases n,
{
    reveal_with_fuel(wait_after_failures, 6);
    if n > 0 {
        law_backoff_bounded((n - 1) as nat);
    }
}

/// A backoff's wait after failures in a row is the wait the schedule gives:
/// each failure hands out the current wait and moves to the next one.
pub proof fn law_backoff_follows_schedule(b: Backoff, n: nat)
    requires
        b.fail_delay() == wait_after_failures(n),
    ensures
        next_fail_delay(b.fail_delay() as int) == wait_after_failures(n + 1),
{
}

/// The wait that the next failure brings after a run of syncs, each `true`
/// where it succeeded: as `on_success` and `on_failure` leave it, from `new`.
pub open spec fn fail_delay_after(run: Seq<bool>) -> int
    decreases run.len(),
{
    if run.len() == 0 || run.last() {
        RETRY_DELAY_SECS as int
    } else {
        next_fail_delay(fail_delay_after(run.drop_last()))
    }
}

/// The failures at the end of a run of syncs, since the start or the last success.
pub open spec fn trailing_failures(run: Seq<bool>) -> nat
    decreases run.len(),
{
    if run.len() == 0 || run.last() {
        0
    } else {
        trailing_failures(run.drop_last()) + 1
    }
}

/// The wait after the sync at position `i` of a run: a day where it succeeded,
/// else the wait that the syncs before it left for the next failure.
pub open spec fn wait_in_run(run: Seq<bool>, i: int) -> int {
    if run[i] {
        SYNC_INTERVAL_SECS as int
    } else {
        fail_delay_after(run.take(i))
    }
}

/// Over any run of syncs, the updater waits a day after each success, and after
/// the k-th failure in a row (counted since the start or the last success) an
/// hour doubled k - 1 times, capped at a day: a success starts the count again.
pub proof fn law_backoff_run(run: Seq<bool>, i: int)
    requires
        0 <= i < run.len(),
    ensures
        fail_delay_after(run) == wait_after_failures(trailing_failures(run)),
        run[i] ==> wait_in_run(run, i) == SYNC_INTERVAL_SECS,
        !run[i] ==> trailing_failures(run.take(i + 1)) == trailing_failures(run.take(i)) + 1
            && wait_in_run(run, i) == wait_after_failures(trailing_failures(run.take(i))),
{
    lemma_fail_delay_after(run);
    lemma_fail_delay_after(run.take(i));
    assert(run.take(i + 1).drop_last() =~= run.take(i));
    assert(run.take(i + 1).last() == run[i]);
}

/// The wait that a run leaves for the next failure follows the schedule from
/// the failures at its end.
proof fn lemma_fail_delay_after(run: Seq<bool>)
    ensures
        fail_delay_after(run) == wait_after_failures(trailing_failures(run)),
    decreases run.len(),
{
    if run.len() > 0 && !run.last() {
        lemma_fail_delay_after(run.drop_last());
    }
}

} // verus!
