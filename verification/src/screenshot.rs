use vstd::prelude::*;
use crate::pixels::{Picture, PictureView};

verus! {

/// The screen area of a capture, in physical pixels.
#[derive(PartialEq, Eq, Structural, Clone, Copy, Debug)]
pub struct ScreenshotBounds {
    pub x: i32,
    pub y: i32,
    pub width: u32,
    pub height: u32,
}

/// A captured screen image and where on the screen it was taken.
pub struct ScreenshotCapture {
    pub picture: Picture,
    pub bounds: ScreenshotBounds,
}

/// What a capture holds: its picture and its bounds.
pub ghost struct CaptureView {
    pub picture: PictureView,
    pub bounds: ScreenshotBounds,
}

impl View for ScreenshotCapture {
    type V = CaptureView;

    open spec fn view(&self) -> CaptureView {
        CaptureView { picture: self.picture@, bounds: self.bounds }
    }
}

/// The pending screenshot session: the capture waiting for the user to select an area,
/// if there is one.
pub struct ScreenshotStore {
    current: Option<ScreenshotCapture>,
}

impl View for ScreenshotStore {
    type V = Option<CaptureView>;

    closed spec fn view(&self) -> Option<CaptureView> {
        match self.current {
            Some(c) => Some(c@),
            None => None,
        }
    }
}

/// The message when no screenshot session is pending.
pub open spec fn session_expired_error() -> Seq<char> {
    "截图会话已失效"@
}

/// The bounds a session query reports for a store state: those of the pending capture,
/// or none.
pub open spec fn session_bounds(state: Option<CaptureView>) -> Option<ScreenshotBounds> {
    match state {
        Some(c) => Some(c.bounds),
        None => None,
    }
}

/// The store state after a session begins with capture `c`: `c` is pending, whatever was
/// pending before.
pub open spec fn after_begin(state: Option<CaptureView>, c: CaptureView) -> Option<CaptureView> {
    Some(c)
}

/// The store state after the pending session is taken: nothing is pending.
pub open spec fn after_take(state: Option<CaptureView>) -> Option<CaptureView> {
    None
}

/// The store state after the pending session is dropped: nothing is pending.
pub open spec fn after_clear(state: Option<CaptureView>) -> Option<CaptureView> {
    None
}

/// The capture that taking the session hands over, if any: the pending one.
pub open spec fn taken_capture(state: Option<CaptureView>) -> Option<CaptureView> {
    state
}

impl ScreenshotStore {
    /// A store with no pending session.
    pub fn new() -> (r: ScreenshotStore)
        ensures
            r@ is None,
    {
        ScreenshotStore { current: None }
    }

    /// Starts a session with a fresh capture, replacing any pending one.
    pub fn begin(&mut self, capture: ScreenshotCapture)
        ensures
            final(self)@ == after_begin(old(self)@, capture@),
    {
        self.current = Some(capture);
    }

    /// The bounds of the pending session, or `截图会话已失效` when there is none.
    pub fn session(&self) -> (r: Result<ScreenshotBounds, String>)
        ensures
            r is Ok <==> session_bounds(self@) is Some,
            r matches Ok(b) ==> session_bounds(self@) == Some(b),
            r matches Err(e) ==> e@ == session_expired_error(),
    {
        match &self.current {
            Some(capture) => Ok(capture.bounds),
            None => Err(String::from_str("截图会话已失效")),
        }
    }

    /// Ends the pending session and hands over its capture, or reports
    /// `截图会话已失效` when there is none. Either way no session is pending afterwards.
    pub fn take(&mut self) -> (r: Result<ScreenshotCapture, String>)
        ensures
            final(self)@ == after_take(old(self)@),
            r is Ok <==> taken_capture(old(self)@) is Some,
            r matches Ok(c) ==> taken_capture(old(self)@) == Some(c@),
            r matches Err(e) ==> e@ == session_expired_error(),
    {
        match self.current.take() {
            Some(capture) => Ok(capture),
            None => Err(String::from_str("截图会话已失效")),
        }
    }

    /// Drops any pending session.
    pub fn clear(&mut self)
        ensures
            final(self)@ == after_clear(old(self)@),
    {
        self.current = None;
    }
}

/// A session that has just begun is reported with the bounds of its capture, and taking
/// it hands over exactly that capture, whatever was pending before.
pub proof fn begun_session_is_reported_and_handed_over(
    state: Option<CaptureView>,
    capture: CaptureView,
)
    ensures
        session_bounds(after_begin(state, capture)) == Some(capture.bounds),
        taken_capture(after_begin(state, capture)) == Some(capture),
{
}

/// Asking for the session succeeds exactly when taking it would, and reports the bounds
/// of the capture that taking it hands over.
pub proof fn session_reports_what_take_hands_over(state: Option<CaptureView>)
    ensures
        session_bounds(state) is Some <==> taken_capture(state) is Some,
        taken_capture(state) matches Some(c) ==> session_bounds(state) == Some(c.bounds),
{
}

/// Once a session has been taken or dropped, asking for it or taking it again fails until
/// the next one begins.
pub proof fn ended_session_is_gone(state: Option<CaptureView>)
    ensures
        session_bounds(after_take(state)) is None,
        taken_capture(after_take(state)) is None,
        session_bounds(after_clear(state)) is None,
        taken_capture(after_clear(state)) is None,
{
}

} // verus!
