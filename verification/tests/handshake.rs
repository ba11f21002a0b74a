use browser_reporter::protocol::POLL_INTERVAL_MS;
use browser_reporter::protocol::SCREENSHOT_ELEMENT_ID;
use browser_reporter::protocol::ScreenshotRequest;
use browser_reporter::protocol::poll_trace;

#[test]
fn request_writes_bare_path() {
    let r = ScreenshotRequest::begin("screenshots/page.png");
    assert_eq!(r.request_text(), "screenshots/page.png");
    assert!(r.is_pending());
}

#[test]
fn pending_while_path_shown_resumes_on_clear() {
    let mut r = ScreenshotRequest::begin("screenshots/page.png");
    r.observe("screenshots/page.png");
    assert!(r.is_pending());
    r.observe("screenshots/page.png");
    assert!(r.is_pending());
    r.observe("");
    assert!(!r.is_pending());
}

#[test]
fn poll_trace_resumes_at_first_clear_poll() {
    // The observer clears the channel after two poll intervals: the first
    // two polls still see the path, the third sees the channel empty, so
    // the request resumes at the third poll and not before.
    let mut r = ScreenshotRequest::begin("shot.png");
    let snapshots = vec![
        String::from("shot.png"),
        String::from("shot.png"),
        String::new(),
        String::new(),
    ];
    assert_eq!(poll_trace(&mut r, &snapshots), Some(2));
    assert!(!r.is_pending());
}

#[test]
fn poll_trace_never_resumes_while_path_shown() {
    let mut r = ScreenshotRequest::begin("shot.png");
    let snapshots = vec![
        String::from("shot.png"),
        String::from("shot.png"),
        String::from("shot.png"),
    ];
    assert_eq!(poll_trace(&mut r, &snapshots), None);
    assert!(r.is_pending());
}

#[test]
fn immediate_acknowledgment_resumes_first_poll() {
    let mut r = ScreenshotRequest::begin("shot.png");
    let snapshots = vec![String::new()];
    assert_eq!(poll_trace(&mut r, &snapshots), Some(0));
    assert!(!r.is_pending());
}

#[test]
fn channel_constants_are_fixed() {
    assert_eq!(SCREENSHOT_ELEMENT_ID, "__wbgtest_screenshot");
    assert_eq!(POLL_INTERVAL_MS, 50);
}
