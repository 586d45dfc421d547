//! The decisions of one capture request: which backend to try first, when to
//! ask the same backend again, when to fall back to the next one, and how the
//! request ends.
//!
//! The caller performs what is decided here: it invokes the backend, waits
//! where it is told to, and hands back what the backend delivered.

use vstd::prelude::*;
use crate::error::CaptureError;
use crate::normalize::{
    bottom_up_bitmap,
    bottom_up_fits,
    normalize_bottom_up,
    normalize_packed,
    packed_bitmap,
    packed_fits,
};
use crate::screenshot::{Bitmap, Screenshot};

verus! {

/// Nanoseconds to wait before a backend that had no frame ready is asked
/// again: one sixtieth of a second.
pub const POLL_INTERVAL_NANOS: u32 = 1_000_000_000 / 60;

/// The mechanisms that can deliver one raw frame of a display.
#[derive(Clone, Copy, Debug, PartialEq, Eq, Structural)]
pub enum Backend {
    /// The cross-platform capturer, which is polled until a frame is ready.
    Generic,
    /// The native path that copies the compositor's surface in one call.
    Compositor,
    /// The fallback that copies the screen into a bitmap and reads it back.
    Legacy,
}

/// The platforms a capture can run on.
#[derive(Clone, Copy, Debug, PartialEq, Eq, Structural)]
pub enum Platform {
    Windows,
    Linux,
    /// Any platform without a capture backend.
    Other,
}

/// What a backend delivers: the bytes of one frame and its size in pixels.
pub struct RawFrame {
    pub data: Vec<u8>,
    pub width: usize,
    pub height: usize,
}

/// What happened when a backend was invoked.
pub enum Event {
    /// The backend delivered a frame.
    Frame(RawFrame),
    /// No frame is ready yet.
    WouldBlock,
    /// The backend failed.
    Failed(CaptureError),
}

/// An open capture request: the display asked for, the backend to invoke
/// next, and the backend to fall back to when that one fails.
#[derive(Clone, Copy, Debug, PartialEq, Eq, Structural)]
pub struct Capture {
    pub screen: usize,
    pub backend: Backend,
    pub fallback: Option<Backend>,
}

/// What to do after a backend was invoked.
pub enum Step {
    /// Wait for `POLL_INTERVAL_NANOS`, then invoke the same backend again.
    Again(Capture),
    /// Report the failure, then invoke the request's next backend.
    FallBack(Capture, CaptureError),
    /// The request ended with this screenshot.
    Done(Screenshot),
    /// The request ended with this failure.
    Failed(CaptureError),
}

/// What a `Step` says, with the screenshot taken as the bitmap it holds.
pub enum Decision {
    Again(Capture),
    FallBack(Capture, CaptureError),
    Done(Bitmap),
    Failed(CaptureError),
}

impl View for Step {
    type V = Decision;

    open spec fn view(&self) -> Decision {
        match *self {
            Step::Again(capture) => Decision::Again(capture),
            Step::FallBack(capture, error) => Decision::FallBack(capture, error),
            Step::Done(shot) => Decision::Done(shot@),
            Step::Failed(error) => Decision::Failed(error),
        }
    }
}

impl Backend {
    /// Whether the backend may be asked again when it had no frame ready.
    /// Only the generic backend is polled; the others deliver in one call.
    pub open spec fn spec_polls(self) -> bool {
        self == Backend::Generic
    }

    /// Whether the backend may be asked again when it had no frame ready.
    #[verifier::when_used_as_spec(spec_polls)]
    pub fn polls(self) -> (polls: bool)
        ensures
            polls == self.spec_polls(),
    {
        match self {
            Backend::Generic => true,
            Backend::Compositor => false,
            Backend::Legacy => false,
        }
    }

    /// The bitmap of a frame that this backend delivered, where the frame's
    /// bytes agree with its size. The legacy backend delivers its scanlines
    /// from the bottom, the others deliver packed scanlines from the top.
    pub open spec fn bitmap(self, data: Seq<u8>, width: nat, height: nat) -> Option<Bitmap> {
        match self {
            Backend::Legacy => if bottom_up_fits(data.len(), width, height) {
                Some(bottom_up_bitmap(data, width, height))
            } else {
                None
            },
            _ => if packed_fits(data.len(), width, height) {
                Some(packed_bitmap(data, width, height))
            } else {
                None
            },
        }
    }

    /// Normalizes a frame that this backend delivered.
    pub fn normalize(self, frame: RawFrame) -> (result: Result<Screenshot, CaptureError>)
        ensures
            match self.bitmap(frame.data@, frame.width as nat, frame.height as nat) {
                Some(image) => result matches Ok(shot) && shot@ == image,
                None => result == Err::<Screenshot, CaptureError>(CaptureError::FrameMismatch),
            },
    {
        match self {
            Backend::Legacy => normalize_bottom_up(frame.data, frame.width, frame.height),
            _ => normalize_packed(frame.data.as_slice(), frame.width, frame.height),
        }
    }
}

impl Platform {
    /// The request for display `screen` on this platform before any backend
    /// was invoked: on Windows the compositor backend with the legacy
    /// backend to fall back to, on Linux the generic backend alone.
    pub open spec fn spec_begin(self, screen: usize) -> Result<Capture, CaptureError> {
        match self {
            Platform::Windows => Ok(
                Capture { screen, backend: Backend::Compositor, fallback: Some(Backend::Legacy) },
            ),
            Platform::Linux => Ok(Capture { screen, backend: Backend::Generic, fallback: None }),
            Platform::Other => Err(CaptureError::NoBackend),
        }
    }

    /// Opens a request for display `screen`: selects the platform's backends
    /// in their fixed order.
    #[verifier::when_used_as_spec(spec_begin)]
    pub fn begin(self, screen: usize) -> (opened: Result<Capture, CaptureError>)
        ensures
            opened == self.spec_begin(screen),
    {
        match self {
            Platform::Windows => Ok(
                Capture { screen, backend: Backend::Compositor, fallback: Some(Backend::Legacy) },
            ),
            Platform::Linux => Ok(Capture { screen, backend: Backend::Generic, fallback: None }),
            Platform::Other => Err(CaptureError::NoBackend),
        }
    }
}

impl Capture {
    /// How the request goes on when its backend failed with `error`: with
    /// the fallback, which has none behind it, or not at all.
    pub open spec fn after_failure(self, error: CaptureError) -> Decision {
        match self.fallback {
            Some(next) => Decision::FallBack(
                Capture { screen: self.screen, backend: next, fallback: None },
                error,
            ),
            None => Decision::Failed(error),
        }
    }

    /// How the request goes on after its backend was invoked and `event`
    /// came back.
    ///
    /// A frame whose bytes agree with its size ends the request with the
    /// normalized bitmap. No frame ready from a backend that is polled leaves
    /// the request as it is, to be tried again. Everything else is a failure
    /// of the backend: the failure it reported, a frame that does not agree
    /// with its size, or no frame from a backend that delivers in one call.
    pub open spec fn decide(self, event: Event) -> Decision {
        match event {
            Event::Frame(frame) => match self.backend.bitmap(
                frame.data@,
                frame.width as nat,
                frame.height as nat,
            ) {
                Some(image) => Decision::Done(image),
                None => self.after_failure(CaptureError::FrameMismatch),
            },
            Event::WouldBlock => if self.backend.polls() {
                Decision::Again(self)
            } else {
                self.after_failure(CaptureError::FrameNotReady)
            },
            Event::Failed(error) => self.after_failure(error),
        }
    }

    /// Where the request stands after its backends were invoked one time
    /// after the other and `events` came back in that order. A request that
    /// has ended stays as it ended, whatever follows; one that was not
    /// invoked yet is open as it is.
    pub open spec fn run(self, events: Seq<Event>) -> Decision
        decreases events.len(),
    {
        if events.len() == 0 {
            Decision::Again(self)
        } else {
            match self.decide(events[0]) {
                Decision::Again(next) => next.run(events.drop_first()),
                Decision::FallBack(next, _) => next.run(events.drop_first()),
                ended => ended,
            }
        }
    }

    fn fail(self, error: CaptureError) -> (step: Step)
        ensures
            step@ == self.after_failure(error),
    {
        match self.fallback {
            Some(next) => Step::FallBack(
                Capture { screen: self.screen, backend: next, fallback: None },
                error,
            ),
            None => Step::Failed(error),
        }
    }

    /// Decides how the request goes on after its backend was invoked and
    /// `event` came back.
    pub fn step(self, event: Event) -> (step: Step)
        ensures
            step@ == self.decide(event),
    {
        match event {
            Event::Frame(frame) => match self.backend.normalize(frame) {
                Ok(shot) => Step::Done(shot),
                Err(error) => self.fail(error),
            },
            Event::WouldBlock => if self.backend.polls() {
                Step::Again(self)
            } else {
                self.fail(CaptureError::FrameNotReady)
            },
            Event::Failed(error) => self.fail(error),
        }
    }
}

/// `waits` times no frame ready, and then `frame`.
pub open spec fn frame_after_waits(waits: nat, frame: RawFrame) -> Seq<Event> {
    Seq::new(waits, |i: int| Event::WouldBlock).push(Event::Frame(frame))
}

/// A backend that is polled may report any number of times that no frame is
/// ready without the request failing: when a frame that agrees with its size
/// comes at last, the request ends with that frame's bitmap.
pub proof fn lemma_polling_ends_with_frame(capture: Capture, waits: nat, frame: RawFrame)
    requires
        capture.backend.polls(),
        capture.backend.bitmap(frame.data@, frame.width as nat, frame.height as nat) is Some,
    ensures
        capture.run(frame_after_waits(waits, frame)) == Decision::Done(
            capture.backend.bitmap(frame.data@, frame.width as nat, frame.height as nat)->0,
        ),
    decreases waits,
{
    let events = frame_after_waits(waits, frame);
    if waits == 0 {
        assert(events[0] == Event::Frame(frame));
    } else {
        assert(events[0] == Event::WouldBlock);
        assert(events.drop_first() =~= frame_after_waits((waits - 1) as nat, frame));
        lemma_polling_ends_with_frame(capture, (waits - 1) as nat, frame);
    }
}

/// When the first backend of a request fails and the request has a
/// fallback, the first failure is reported only: the fallback is invoked for
/// the same display, nothing stands behind it, and what it delivers decides
/// as if the request had begun with it. So where the fallback fails too, the
/// request ends with the fallback's failure.
pub proof fn lemma_fallback_decides(capture: Capture, first: CaptureError, second: Event)
    requires
        capture.fallback is Some,
    ensures
        capture.decide(Event::Failed(first)) == Decision::FallBack(
            Capture { screen: capture.screen, backend: capture.fallback->0, fallback: None },
            first,
        ),
        capture.run(seq![Event::Failed(first), second]) == (Capture {
            screen: capture.screen,
            backend: capture.fallback->0,
            fallback: None,
        }).decide(second),
        second matches Event::Failed(error) ==> capture.run(seq![Event::Failed(first), second])
            == Decision::Failed(error),
{
    let events = seq![Event::Failed(first), second];
    let next = Capture { screen: capture.screen, backend: capture.fallback->0, fallback: None };
    assert(events[0] == Event::Failed(first));
    assert(events.drop_first() =~= seq![second]);
    assert(next.run(seq![second]) == next.decide(second)) by {
        reveal_with_fuel(Capture::run, 2);
        assert(seq![second][0] == second);
        assert(seq![second].drop_first().len() == 0);
    }
}

} // verus!
