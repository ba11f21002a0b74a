//! The screenshot request/acknowledge handshake.
//!
//! A test asks an external observer for a screenshot by writing the
//! target path into a dedicated page element, the channel, and then
//! repeatedly re-reading that element at a fixed interval. The observer
//! captures the screen, saves it under the path, and acknowledges by
//! clearing the element; the poll that sees the channel empty completes
//! the request. Only this process writes the path, only the observer
//! clears it, and at most one request may be in flight at a time.

use vstd::prelude::*;
use vstd::string::StringExecFns;

verus! {

/// The id of the page element used as the request/acknowledge channel.
pub const SCREENSHOT_ELEMENT_ID: &'static str = "__wbgtest_screenshot";

/// Milliseconds between two polls of the channel: fixed, no backoff.
pub const POLL_INTERVAL_MS: u32 = 50;

/// One screenshot request, from this process's point of view: pending
/// from the moment the path is written into the channel until a poll
/// sees the channel cleared.
pub struct ScreenshotRequest {
    path: String,
    acknowledged: bool,
}

impl ScreenshotRequest {
    /// The requested path, exactly as written into the channel.
    pub closed spec fn path_text(&self) -> Seq<char> {
        self.path@
    }

    /// The request still awaits the observer's acknowledgment.
    pub closed spec fn pending(&self) -> bool {
        !self.acknowledged
    }

    /// Begin a request to save a screenshot under `path` (relative to
    /// the project root). The caller writes `request_text()` into the
    /// channel and then polls with `observe`.
    pub fn begin(path: &str) -> (r: ScreenshotRequest)
        ensures
            r.pending(),
            r.path_text() == path@,
    {
        ScreenshotRequest { path: String::from_str(path), acknowledged: false }
    }

    /// What this process writes into the channel: the bare path.
    pub fn request_text(&self) -> (t: &str)
        ensures
            t@ == self.path_text(),
    {
        self.path.as_str()
    }

    /// Whether the request is still pending.
    pub fn is_pending(&self) -> (b: bool)
        ensures
            b == self.pending(),
    {
        !self.acknowledged
    }

    /// One poll: look at the channel's current text. The observer
    /// acknowledges by clearing the channel, so the request completes
    /// exactly when the text is empty; in particular, while the channel
    /// still shows the requested (non-empty) path, the request stays
    /// pending. This process never clears the channel itself.
    pub fn observe(&mut self, channel_text: &str)
        requires
            old(self).pending(),
        ensures
            final(self).path_text() == old(self).path_text(),
            final(self).pending() <==> channel_text@.len() != 0,
            channel_text@ == old(self).path_text() && old(self).path_text().len() != 0
                ==> final(self).pending(),
    {
        self.acknowledged = channel_text.is_empty();
    }
}

/// The poll loop, run against a sequence of channel snapshots: one poll
/// interval elapses before each poll, and `snapshots[k]` is the channel
/// text the k-th poll sees. The request completes at the first poll that
/// sees the channel empty — when that is poll `k`, every earlier poll
/// left it pending and exactly `k + 1` intervals have elapsed — and it
/// stays pending through the whole trace when no poll sees the channel
/// cleared.
pub fn poll_trace(request: &mut ScreenshotRequest, snapshots: &Vec<String>) -> (completed_at: Option<
    usize,
>)
    requires
        old(request).pending(),
    ensures
        final(request).path_text() == old(request).path_text(),
        match completed_at {
            Some(k) => {
                &&& k < snapshots@.len()
                &&& snapshots@[k as int]@.len() == 0
                &&& forall|j: int| 0 <= j < k ==> snapshots@[j]@.len() != 0
                &&& !final(request).pending()
            },
            None => {
                &&& forall|j: int| 0 <= j < snapshots@.len() ==> snapshots@[j]@.len() != 0
                &&& final(request).pending()
            },
        },
{
    let mut k: usize = 0;
    while k < snapshots.len()
        invariant
            k <= snapshots@.len(),
            request.pending(),
            request.path_text() == old(request).path_text(),
            forall|j: int| 0 <= j < k ==> snapshots@[j]@.len() != 0,
        decreases snapshots@.len() - k,
    {
        request.observe(snapshots[k].as_str());
        if !request.is_pending() {
            return Some(k);
        }
        k += 1;
    }
    None
}

} // verus!
