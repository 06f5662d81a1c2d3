//! A cold session: a session that is opened only to be captured, from its first frame on.

use vstd::prelude::*;
use vstd::string::*;
use crate::capture_writer_model;
use crate::capture_writer_model::{ArmedConfig, Call, CaptureState, Outcome, WriterDecision};
use crate::capture_writer_model::WriterView;
use crate::client;
use crate::client::is_timeout;
use crate::error::VncError;
use crate::handshake::VncClient;
use crate::hpss;
use crate::hpss::{build_display_query, build_set_display_config, mvs_envelope_candidate_rect};
use crate::hpss::{parse_media, parse_server_state_geometry, DisplaySize, Media};
use crate::mvs_capture_v2::MvsCaptureV2Geometry;
use crate::mvs_capture_v2_writer::{CaptureClock, CaptureSink, MvsCaptureV2Writer};
use crate::mvs_stream::MvsRect;
use crate::protocol;
use crate::protocol::msg_fb_update_request;

verus! {

/// The name of the display that a cold session sets up.
pub const COLD_DISPLAY_NAME: &'static str = "FreeRemoteDesk Cold Capture";

/// How long a read waits while a session is recorded, in milliseconds.
pub const RECORDING_READ_POLL_MILLIS: u64 = 100;

/// The size of a surface.
pub type CaptureGeometry = MvsCaptureV2Geometry;

/// What a frame is to a capture.
#[derive(Debug, PartialEq, Eq)]
pub enum ColdFrameClass {
    /// A further chunk of the record that is being received.
    Continuation,
    /// The first chunk of a record.
    MvsBegin { rect: MvsRect, total: u32, body: Vec<u8> },
    /// A record that could not be recognised.
    InvalidMvs(MvsRect),
    /// A surface of another size.
    GeometryTransition,
    /// Nothing of the media stream.
    NonMvs,
}

/// What a frame is to a capture.
pub enum FrameClassView {
    Continuation,
    MvsBegin { rect: MvsRect, total: u32, body: Seq<u8> },
    InvalidMvs(MvsRect),
    GeometryTransition,
    NonMvs,
}

impl View for ColdFrameClass {
    type V = FrameClassView;

    open spec fn view(&self) -> FrameClassView {
        match *self {
            ColdFrameClass::Continuation => FrameClassView::Continuation,
            ColdFrameClass::MvsBegin { rect, total, body } => FrameClassView::MvsBegin {
                rect,
                total,
                body: body@,
            },
            ColdFrameClass::InvalidMvs(rect) => FrameClassView::InvalidMvs(rect),
            ColdFrameClass::GeometryTransition => FrameClassView::GeometryTransition,
            ColdFrameClass::NonMvs => FrameClassView::NonMvs,
        }
    }
}

/// What a frame is to a capture of this surface. While a record is being received, every frame is
/// a chunk of it.
pub open spec fn frame_class(frame: Seq<u8>, pending: bool, committed: CaptureGeometry) -> FrameClassView {
    if pending {
        FrameClassView::Continuation
    } else {
        match hpss::media_of(frame) {
            Ok(hpss::MediaView::Mvs { x, y, w, h, total, body }) => FrameClassView::MvsBegin {
                rect: MvsRect { x, y, width: w, height: h },
                total,
                body,
            },
            Ok(hpss::MediaView::State(encoding)) => if encoding == hpss::encoding::SERVER_STATE {
                match hpss::state_geometry(frame) {
                    Ok(size) => if size.width != committed.width || size.height
                        != committed.height {
                        FrameClassView::GeometryTransition
                    } else {
                        FrameClassView::NonMvs
                    },
                    Err(_) => FrameClassView::NonMvs,
                }
            } else {
                FrameClassView::NonMvs
            },
            Ok(hpss::MediaView::Other(_)) => FrameClassView::NonMvs,
            Err(_) => match hpss::candidate_rect(frame) {
                Some(rect) => FrameClassView::InvalidMvs(rect),
                None => FrameClassView::NonMvs,
            },
        }
    }
}

/// Tells what a frame is to a capture.
pub fn classify_cold_frame(frame: &[u8], pending: bool, committed: CaptureGeometry) -> (r:
    ColdFrameClass)
    ensures
        r@ == frame_class(frame@, pending, committed),
{
    if pending {
        return ColdFrameClass::Continuation;
    }
    match parse_media(frame) {
        Ok(Media::Mvs { x, y, w, h, total, body }) => ColdFrameClass::MvsBegin {
            rect: MvsRect { x, y, width: w, height: h },
            total,
            body,
        },
        Ok(Media::State(encoding)) => {
            if encoding != hpss::encoding::SERVER_STATE {
                return ColdFrameClass::NonMvs;
            }
            match parse_server_state_geometry(frame) {
                Ok(size) => if size.width != committed.width || size.height != committed.height {
                    ColdFrameClass::GeometryTransition
                } else {
                    ColdFrameClass::NonMvs
                },
                Err(_) => ColdFrameClass::NonMvs,
            }
        },
        Ok(Media::Other(_)) => ColdFrameClass::NonMvs,
        Err(_) => match mvs_envelope_candidate_rect(frame) {
            Some(rect) => ColdFrameClass::InvalidMvs(rect),
            None => ColdFrameClass::NonMvs,
        },
    }
}

/// The connection of a cold session.
pub trait ColdSessionIo: Sized {
    /// Whether this request was made of this connection, was answered so and left it like this. A
    /// connection that keeps no account of its requests says so of all; a session takes nothing of
    /// it for granted that it has not asked.
    open spec fn did(self, call: IoCall, after: Self) -> bool {
        true
    }

    fn is_encrypted(&self) -> (r: bool)
        ensures
            self.did(IoCall::Encrypted(r), *self),
    ;

    fn set_read_timeout(&mut self, millis: u64) -> (r: Result<(), VncError>)
        ensures
            old(self).did(IoCall::TimeoutSet(millis, r is Ok), *final(self)),
    ;

    fn write_all(&mut self, bytes: &[u8]) -> (r: Result<(), VncError>)
        ensures
            old(self).did(IoCall::Wrote(bytes@, r is Ok), *final(self)),
    ;

    fn read_frame_step(&mut self) -> (r: Result<Option<Vec<u8>>, VncError>)
        ensures
            old(self).did(IoCall::Read(read_answer(r)), *final(self)),
    ;

    /// A connection that has nothing to say of this is never cancelled, and stays as it was.
    fn is_cancelled(&mut self) -> (r: bool)
        ensures
            old(self).did(IoCall::Cancelled(r), *final(self)) || (!r && *final(self) == *old(self)),
    {
        false
    }
}

/// A request to the connection and its answer.
pub enum IoCall {
    Encrypted(bool),
    TimeoutSet(u64, bool),
    Wrote(Seq<u8>, bool),
    Read(Result<Option<Seq<u8>>, VncError>),
    Cancelled(bool),
}

/// What a read gave.
pub open spec fn read_answer(r: Result<Option<Vec<u8>>, VncError>) -> Result<
    Option<Seq<u8>>,
    VncError,
> {
    match r {
        Ok(Some(frame)) => Ok(Some(frame@)),
        Ok(None) => Ok(None),
        Err(e) => Err(e),
    }
}

/// Whether this request was made of the connection, was answered so and left it like this. That a
/// connection was not cancelled is also what holds of one that is left as it was.
pub open spec fn answered<I: ColdSessionIo>(from: I, call: IoCall, to: I) -> bool {
    from.did(call, to) || (call == IoCall::Cancelled(false) && to == from)
}

/// Whether the requests were made one behind the other, of a connection that was `start` at first
/// and became `end`, and were answered so.
#[verifier::opaque]
pub open spec fn conversed<I: ColdSessionIo>(start: I, heard: Seq<IoCall>, end: I) -> bool
    decreases heard.len(),
{
    if heard.len() == 0 {
        end == start
    } else {
        exists|mid: I|
            conversed(start, heard.drop_last(), mid) && #[trigger] answered(mid, heard.last(), end)
    }
}

/// A request more was made.
proof fn lemma_conversed<I: ColdSessionIo>(
    start: I,
    heard: Seq<IoCall>,
    from: I,
    call: IoCall,
    to: I,
)
    requires
        conversed(start, heard, from),
        answered(from, call, to),
    ensures
        conversed(start, heard.push(call), to),
{
    reveal(conversed);
    let longer = heard.push(call);
    assert(longer.drop_last() =~= heard);
    assert(conversed(start, longer.drop_last(), from) && answered(from, longer.last(), to));
}

/// A connection, and all the requests that it was asked.
pub struct ObservedIo<I: ColdSessionIo> {
    pub io: I,
    pub heard: Ghost<Seq<IoCall>>,
    pub start: Ghost<I>,
}

impl<I: ColdSessionIo> ObservedIo<I> {
    /// The requests are those that were made, and the connection is what they left.
    pub open spec fn wf(self) -> bool {
        conversed(self.start@, self.heard@, self.io)
    }

    /// Whether this is what `earlier` became when it was asked once more.
    spec fn asked_once(self, earlier: Self, call: IoCall) -> bool {
        &&& self.wf()
        &&& self.start == earlier.start
        &&& self.heard@ == earlier.heard@.push(call)
    }

    /// A connection that was asked nothing.
    pub fn new(io: I) -> (r: Self)
        ensures
            r.wf(),
            r.io == io,
            r.start@ == io,
            r.heard@ == Seq::<IoCall>::empty(),
    {
        proof {
            reveal(conversed);
        }
        ObservedIo { io, heard: Ghost(Seq::empty()), start: Ghost(io) }
    }

    fn is_encrypted(&mut self) -> (r: bool)
        requires
            old(self).wf(),
        ensures
            final(self).asked_once(*old(self), IoCall::Encrypted(r)),
    {
        let ghost from = self.io;
        let r: bool = self.io.is_encrypted();
        proof {
            lemma_conversed(self.start@, self.heard@, from, IoCall::Encrypted(r), self.io);
            self.heard@ = self.heard@.push(IoCall::Encrypted(r));
        }
        r
    }

    fn set_read_timeout(&mut self, millis: u64) -> (r: bool)
        requires
            old(self).wf(),
        ensures
            final(self).asked_once(*old(self), IoCall::TimeoutSet(millis, r)),
    {
        let ghost from = self.io;
        let r: bool = self.io.set_read_timeout(millis).is_ok();
        proof {
            lemma_conversed(self.start@, self.heard@, from, IoCall::TimeoutSet(millis, r), self.io);
            self.heard@ = self.heard@.push(IoCall::TimeoutSet(millis, r));
        }
        r
    }

    fn write_all(&mut self, bytes: &[u8]) -> (r: bool)
        requires
            old(self).wf(),
        ensures
            final(self).asked_once(*old(self), IoCall::Wrote(bytes@, r)),
    {
        let ghost from = self.io;
        let r: bool = self.io.write_all(bytes).is_ok();
        proof {
            lemma_conversed(self.start@, self.heard@, from, IoCall::Wrote(bytes@, r), self.io);
            self.heard@ = self.heard@.push(IoCall::Wrote(bytes@, r));
        }
        r
    }

    fn read_frame_step(&mut self) -> (r: Result<Option<Vec<u8>>, VncError>)
        requires
            old(self).wf(),
        ensures
            final(self).asked_once(*old(self), IoCall::Read(read_answer(r))),
    {
        let ghost from = self.io;
        let r = self.io.read_frame_step();
        proof {
            lemma_conversed(self.start@, self.heard@, from, IoCall::Read(read_answer(r)), self.io);
            self.heard@ = self.heard@.push(IoCall::Read(read_answer(r)));
        }
        r
    }

    fn is_cancelled(&mut self) -> (r: bool)
        requires
            old(self).wf(),
        ensures
            final(self).asked_once(*old(self), IoCall::Cancelled(r)),
    {
        let ghost from = self.io;
        let r: bool = self.io.is_cancelled();
        proof {
            lemma_conversed(self.start@, self.heard@, from, IoCall::Cancelled(r), self.io);
            self.heard@ = self.heard@.push(IoCall::Cancelled(r));
        }
        r
    }
}

/// What a session leaves and answers.
pub type Ended = (WriterView, Result<(), VncError>);

/// The session goes on only where the capture does.
pub open spec fn required(o: Outcome) -> Ended {
    match o.1 {
        Err(e) => (o.0, Err(e)),
        Ok(WriterDecision::Continue) => (o.0, Ok(())),
        Ok(WriterDecision::Finalized(_)) => (
            o.0,
            Err(VncError::Text("cold session finalized before recording")),
        ),
    }
}

/// The session ends as the capture did: with a failure, unless the capture came to a clean end.
pub open spec fn ended_as(o: Outcome, finalized: &'static str, continued: &'static str) -> Ended {
    match o.1 {
        Err(e) => (o.0, Err(e)),
        Ok(WriterDecision::Finalized(CaptureState::Clean)) => (o.0, Ok(())),
        Ok(WriterDecision::Finalized(_)) => (o.0, Err(VncError::Text(finalized))),
        Ok(WriterDecision::Continue) => (o.0, Err(VncError::Text(continued))),
    }
}

/// The session ends with this failure, once the capture has been told of it.
pub open spec fn failed_as(o: Outcome, text: &'static str) -> Ended {
    match o.1 {
        Err(e) => (o.0, Err(e)),
        Ok(_) => (o.0, Err(VncError::Text(text))),
    }
}

/// The bytes of the record that are still to come.
pub open spec fn left_after(total: int, length: int) -> Option<usize> {
    if length < total {
        Some((total - length) as usize)
    } else {
        None
    }
}

/// What a frame does to the capture, and the bytes of a record that are still to come behind it.
pub open spec fn processed(
    w: WriterView,
    pending: Option<usize>,
    committed: CaptureGeometry,
    frame: Seq<u8>,
    all: Seq<Call>,
) -> (Outcome, Option<usize>) {
    match frame_class(frame, pending is Some, committed) {
        FrameClassView::Continuation => {
            let o = capture_writer_model::continuation_accepted(w, frame, all);
            if o.1 == Ok::<WriterDecision, VncError>(WriterDecision::Continue) {
                (o, left_after(pending->0 as int, frame.len() as int))
            } else {
                (o, pending)
            }
        },
        FrameClassView::MvsBegin { rect, total, body } => {
            let o = capture_writer_model::begin_accepted(w, rect, total, body, all);
            if o.1 == Ok::<WriterDecision, VncError>(WriterDecision::Continue) {
                (o, left_after(total as int, body.len() as int))
            } else {
                (o, pending)
            }
        },
        FrameClassView::InvalidMvs(rect) => (
            capture_writer_model::envelope_rejected(w, Some(rect), all),
            pending,
        ),
        FrameClassView::GeometryTransition => (
            capture_writer_model::transition_attempted(w, all),
            pending,
        ),
        FrameClassView::NonMvs => (capture_writer_model::non_mvs_accepted(w, all), pending),
    }
}

/// Hands a frame to the capture.
pub fn process_frame<S: CaptureSink, C: CaptureClock>(
    writer: &mut MvsCaptureV2Writer<S, C>,
    pending_remaining: &mut Option<usize>,
    committed: CaptureGeometry,
    frame: &[u8],
) -> (r: Result<WriterDecision, VncError>)
    requires
        old(writer).wf(),
    ensures
        final(writer).wf(),
        final(writer).continues(*old(writer)),
        capture_writer_model::extends(final(writer)@.calls, old(writer)@.calls),
        forall|all: Seq<Call>|
            capture_writer_model::extends(all, final(writer)@.calls) ==> #[trigger] processed(
                old(writer)@,
                *old(pending_remaining),
                committed,
                frame@,
                all,
            ) == ((final(writer)@, r), *final(pending_remaining)),
{
    match classify_cold_frame(frame, pending_remaining.is_some(), committed) {
        ColdFrameClass::Continuation => {
            let prior: usize = match *pending_remaining {
                Some(prior) => prior,
                None => {
                    return Err(VncError::Text("cold pending provenance"));
                },
            };
            let decision = writer.accept_mvs_continuation(frame)?;
            if decision == WriterDecision::Continue {
                *pending_remaining = if frame.len() < prior {
                    Some(prior - frame.len())
                } else {
                    None
                };
            }
            Ok(decision)
        },
        ColdFrameClass::MvsBegin { rect, total, body } => {
            let decision = writer.accept_mvs_begin(rect, total, body.as_slice())?;
            if decision == WriterDecision::Continue {
                *pending_remaining = if body.len() < total as usize {
                    Some(total as usize - body.len())
                } else {
                    None
                };
            }
            Ok(decision)
        },
        ColdFrameClass::InvalidMvs(rect) => writer.reject_mvs_envelope(Some(rect)),
        ColdFrameClass::GeometryTransition => writer.generation_transition_attempted(),
        ColdFrameClass::NonMvs => writer.accept_non_mvs(),
    }
}

/// Whether `longer` begins with `shorter`.
pub open spec fn heard_extends(longer: Seq<IoCall>, shorter: Seq<IoCall>) -> bool {
    &&& shorter.len() <= longer.len()
    &&& forall|i: int| 0 <= i < shorter.len() ==> #[trigger] longer[i] == shorter[i]
}

/// What came of opening a session. Each time, `heard` tells how many answers it took.
pub enum Opened {
    /// The session has ended.
    Ended { ended: Ended, heard: int },
    /// The session goes on.
    Ready { writer: WriterView, heard: int },
    /// The answers are not those of this session.
    Unheard,
}

/// What came of it, once the capture was told.
pub open spec fn opened_as(ended: Ended, heard: int) -> Opened {
    match ended.1 {
        Ok(_) => Opened::Ready { writer: ended.0, heard },
        Err(_) => Opened::Ended { ended, heard },
    }
}

/// A part of the trigger is sent.
pub open spec fn trigger_sent(
    w: WriterView,
    message: Seq<u8>,
    bit: u32,
    heard: Seq<IoCall>,
    at: int,
    all: Seq<Call>,
) -> Opened {
    if at >= heard.len() {
        Opened::Unheard
    } else if heard[at] == IoCall::Wrote(message, true) {
        opened_as(required(capture_writer_model::trigger_written(w, bit, all)), at + 1)
    } else if heard[at] == IoCall::Wrote(message, false) {
        opened_as(
            failed_as(capture_writer_model::trigger_refused(w, all), "cold trigger write"),
            at + 1,
        )
    } else {
        Opened::Unheard
    }
}

/// Nothing more can be read: the capture is told, and the session ends as it does.
pub open spec fn unreadable(w: WriterView, all: Seq<Call>) -> Ended {
    ended_as(
        capture_writer_model::read_refused(w, all),
        "cold session read",
        "cold session read state",
    )
}

/// The recording begins.
pub open spec fn gate_opened(w: WriterView, heard: Seq<IoCall>, at: int, all: Seq<Call>) -> Opened {
    let (v, gate) = required(capture_writer_model::gate_written(w, all));
    match gate {
        Err(e) => Opened::Ended { ended: (v, Err(e)), heard: at },
        Ok(_) => if at >= heard.len() {
            Opened::Unheard
        } else if heard[at] == IoCall::TimeoutSet(RECORDING_READ_POLL_MILLIS, true) {
            Opened::Ready { writer: v, heard: at + 1 }
        } else if heard[at] == IoCall::TimeoutSet(RECORDING_READ_POLL_MILLIS, false) {
            Opened::Ended { ended: unreadable(v, all), heard: at + 1 }
        } else {
            Opened::Unheard
        },
    }
}

/// The three parts of the trigger are sent, and the recording begins.
pub open spec fn triggered(
    w: WriterView,
    requested: CaptureGeometry,
    heard: Seq<IoCall>,
    at: int,
    all: Seq<Call>,
) -> Opened {
    match trigger_sent(
        w,
        hpss::display_config_bytes(vstd::utf8::encode_utf8(COLD_DISPLAY_NAME@)),
        1,
        heard,
        at,
        all,
    ) {
        Opened::Ready { writer: w1, heard: at1 } => if requested.width == 0 || requested.height
            == 0 {
            Opened::Ended {
                ended: (w1, Err(VncError::Text("cold display geometry"))),
                heard: at1,
            }
        } else {
            match trigger_sent(
                w1,
                hpss::display_query_bytes(requested.width, requested.height),
                2,
                heard,
                at1,
                all,
            ) {
                Opened::Ready { writer: w2, heard: at2 } => match trigger_sent(
                    w2,
                    protocol::update_request_bytes(
                        false,
                        0,
                        0,
                        requested.width,
                        requested.height,
                    ),
                    4,
                    heard,
                    at2,
                    all,
                ) {
                    Opened::Ready { writer: w3, heard: at3 } => gate_opened(w3, heard, at3, all),
                    ended => ended,
                },
                ended => ended,
            }
        },
        ended => ended,
    }
}

/// The session is opened: it has to be encrypted, the capture is armed for the surface, and the
/// trigger is sent.
pub open spec fn opened(
    w: WriterView,
    requested: CaptureGeometry,
    heard: Seq<IoCall>,
    at: int,
    all: Seq<Call>,
) -> Opened {
    if at >= heard.len() {
        Opened::Unheard
    } else if heard[at] == IoCall::Encrypted(false) {
        Opened::Ended {
            ended: failed_as(
                capture_writer_model::created_failed(w, 258, all),
                "cold session encryption required",
            ),
            heard: at + 1,
        }
    } else if heard[at] == IoCall::Encrypted(true) {
        let (w1, armed) = required(
            capture_writer_model::armed(w, ArmedConfig { committed: requested, requested }, all),
        );
        match armed {
            Err(e) => Opened::Ended { ended: (w1, Err(e)), heard: at + 1 },
            Ok(_) => {
                let (w2, begun) = required(capture_writer_model::trigger_begun(w1, all));
                match begun {
                    Err(e) => Opened::Ended { ended: (w2, Err(e)), heard: at + 1 },
                    Ok(_) => triggered(w2, requested, heard, at + 1, all),
                }
            },
        }
    } else {
        Opened::Unheard
    }
}

/// The session is recorded: what it leaves and answers, and how many answers it took.
#[verifier::opaque]
pub open spec fn recorded(
    w: WriterView,
    pending: Option<usize>,
    committed: CaptureGeometry,
    heard: Seq<IoCall>,
    at: int,
    all: Seq<Call>,
) -> Option<(Ended, int)>
    decreases heard.len() - at,
{
    let (w1, watched) = capture_writer_model::polled(w, all);
    if watched != Ok::<WriterDecision, VncError>(WriterDecision::Continue) {
        Some((ended_as((w1, watched), "cold session aborted", ""), at))
    } else if at >= heard.len() {
        None
    } else if heard[at] == IoCall::Cancelled(true) {
        Some(
            (
                ended_as(
                    capture_writer_model::cancelled(w1, all),
                    "cold session cancelled",
                    "cold cancellation state",
                ),
                at + 1,
            ),
        )
    } else if heard[at] != IoCall::Cancelled(false) || at + 1 >= heard.len() {
        None
    } else {
        match heard[at + 1] {
            IoCall::Read(Ok(None)) => recorded(w1, pending, committed, heard, at + 2, all),
            IoCall::Read(Err(e)) => if client::traced_to(e, client::FailureKind::TimedOut) {
                recorded(w1, pending, committed, heard, at + 2, all)
            } else {
                Some((unreadable(w1, all), at + 2))
            },
            IoCall::Read(Ok(Some(frame))) => {
                let ((w2, taken), left) = processed(w1, pending, committed, frame, all);
                if taken != Ok::<WriterDecision, VncError>(WriterDecision::Continue) {
                    Some((ended_as((w2, taken), "cold session aborted", ""), at + 2))
                } else {
                    recorded(w2, left, committed, heard, at + 2, all)
                }
            },
            _ => None,
        }
    }
}

/// A whole session: what it leaves and answers, and how many answers it took.
pub open spec fn session(
    w: WriterView,
    requested: CaptureGeometry,
    heard: Seq<IoCall>,
    at: int,
    all: Seq<Call>,
) -> Option<(Ended, int)> {
    match opened(w, requested, heard, at, all) {
        Opened::Ended { ended, heard } => Some((ended, heard)),
        Opened::Ready { writer, heard: next } => recorded(writer, None, requested, heard, next, all),
        Opened::Unheard => None,
    }
}

fn require_continue(decision: WriterDecision) -> (r: Result<(), VncError>)
    ensures
        r == (match decision {
            WriterDecision::Continue => Ok::<(), VncError>(()),
            WriterDecision::Finalized(_) => Err(
                VncError::Text("cold session finalized before recording"),
            ),
        }),
{
    match decision {
        WriterDecision::Continue => Ok(()),
        WriterDecision::Finalized(_) => Err(
            VncError::Text("cold session finalized before recording"),
        ),
    }
}

/// Ends a session because nothing more can be read.
pub fn finish_after_read_failure<S: CaptureSink, C: CaptureClock>(
    writer: &mut MvsCaptureV2Writer<S, C>,
) -> (r: Result<(), VncError>)
    requires
        old(writer).wf(),
    ensures
        final(writer).wf(),
        final(writer).continues(*old(writer)),
        capture_writer_model::extends(final(writer)@.calls, old(writer)@.calls),
        forall|all: Seq<Call>|
            capture_writer_model::extends(all, final(writer)@.calls) ==> #[trigger] unreadable(
                old(writer)@,
                all,
            ) == (final(writer)@, r),
{
    match writer.read_failed()? {
        WriterDecision::Finalized(CaptureState::Clean) => Ok(()),
        WriterDecision::Finalized(_) => Err(VncError::Text("cold session read")),
        WriterDecision::Continue => Err(VncError::Text("cold session read state")),
    }
}

/// Sends a part of the trigger.
fn write_trigger<I: ColdSessionIo, S: CaptureSink, C: CaptureClock>(
    io: &mut ObservedIo<I>,
    writer: &mut MvsCaptureV2Writer<S, C>,
    message: &[u8],
    bit: u32,
) -> (r: Result<(), VncError>)
    requires
        old(writer).wf(),
        old(io).wf(),
    ensures
        final(writer).wf(),
        final(writer).continues(*old(writer)),
        final(io).wf(),
        final(io).start == old(io).start,
        capture_writer_model::extends(final(writer)@.calls, old(writer)@.calls),
        heard_extends(final(io).heard@, old(io).heard@),
        final(io).heard@.len() == old(io).heard@.len() + 1,
        forall|heard: Seq<IoCall>, all: Seq<Call>|
            heard_extends(heard, final(io).heard@) && capture_writer_model::extends(
                all,
                final(writer)@.calls,
            ) ==> #[trigger] trigger_sent(
                old(writer)@,
                message@,
                bit,
                heard,
                old(io).heard@.len() as int,
                all,
            ) == opened_as((final(writer)@, r), final(io).heard@.len() as int),
{
    let ghost at = io.heard@.len() as int;
    let sent: bool = io.write_all(message);
    proof {
        assert(forall|heard: Seq<IoCall>|
            heard_extends(heard, io.heard@) ==> #[trigger] heard[at] == io.heard@[at]);
    }
    if !sent {
        writer.trigger_failed()?;
        return Err(VncError::Text("cold trigger write"));
    }
    let decision = writer.trigger_write_succeeded(bit)?;
    require_continue(decision)
}

proof fn lemma_display_name()
    ensures
        vstd::utf8::encode_utf8(COLD_DISPLAY_NAME@).len() == 27,
{
    reveal_strlit("FreeRemoteDesk Cold Capture");
    assert(vstd::utf8::is_ascii_chars(COLD_DISPLAY_NAME@));
    vstd::utf8::is_ascii_chars_encode_utf8(COLD_DISPLAY_NAME@);
}

/// Sends the trigger and begins the recording.
fn trigger_session<I: ColdSessionIo, S: CaptureSink, C: CaptureClock>(
    io: &mut ObservedIo<I>,
    writer: &mut MvsCaptureV2Writer<S, C>,
    requested: CaptureGeometry,
) -> (r: Result<bool, VncError>)
    requires
        old(writer).wf(),
        old(io).wf(),
    ensures
        final(writer).wf(),
        final(writer).continues(*old(writer)),
        final(io).wf(),
        final(io).start == old(io).start,
        capture_writer_model::extends(final(writer)@.calls, old(writer)@.calls),
        heard_extends(final(io).heard@, old(io).heard@),
        forall|heard: Seq<IoCall>, all: Seq<Call>|
            heard_extends(heard, final(io).heard@) && capture_writer_model::extends(
                all,
                final(writer)@.calls,
            ) ==> #[trigger] triggered(
                old(writer)@,
                requested,
                heard,
                old(io).heard@.len() as int,
                all,
            ) == begun_as(final(writer)@, r, final(io).heard@.len() as int),
{
    proof {
        lemma_display_name();
    }
    let config = build_set_display_config(COLD_DISPLAY_NAME);
    write_trigger(io, writer, config.as_slice(), 1)?;
    let size = match DisplaySize::new(requested.width, requested.height) {
        Some(size) => size,
        None => {
            return Err(VncError::Text("cold display geometry"));
        },
    };
    let query = build_display_query(size);
    write_trigger(io, writer, query.as_slice(), 2)?;
    let request = msg_fb_update_request(false, 0, 0, requested.width, requested.height);
    write_trigger(io, writer, request.as_slice(), 4)?;
    let gate = writer.write_recording_gate()?;
    require_continue(gate)?;
    let ghost at = io.heard@.len() as int;
    let limited: bool = io.set_read_timeout(RECORDING_READ_POLL_MILLIS);
    proof {
        assert(forall|heard: Seq<IoCall>|
            heard_extends(heard, io.heard@) ==> #[trigger] heard[at] == io.heard@[at]);
    }
    if !limited {
        finish_after_read_failure(writer)?;
        return Ok(false);
    }
    Ok(true)
}

/// What came of opening a session: whether it goes on, or how it ended.
pub open spec fn begun_as(writer: WriterView, r: Result<bool, VncError>, heard: int) -> Opened {
    match r {
        Ok(true) => Opened::Ready { writer, heard },
        Ok(false) => Opened::Ended { ended: (writer, Ok(())), heard },
        Err(e) => Opened::Ended { ended: (writer, Err(e)), heard },
    }
}

/// Opens a session.
fn open_session<I: ColdSessionIo, S: CaptureSink, C: CaptureClock>(
    io: &mut ObservedIo<I>,
    writer: &mut MvsCaptureV2Writer<S, C>,
    requested: CaptureGeometry,
) -> (r: Result<bool, VncError>)
    requires
        old(writer).wf(),
        old(io).wf(),
    ensures
        final(writer).wf(),
        final(writer).continues(*old(writer)),
        final(io).wf(),
        final(io).start == old(io).start,
        capture_writer_model::extends(final(writer)@.calls, old(writer)@.calls),
        heard_extends(final(io).heard@, old(io).heard@),
        forall|heard: Seq<IoCall>, all: Seq<Call>|
            heard_extends(heard, final(io).heard@) && capture_writer_model::extends(
                all,
                final(writer)@.calls,
            ) ==> #[trigger] opened(
                old(writer)@,
                requested,
                heard,
                old(io).heard@.len() as int,
                all,
            ) == begun_as(final(writer)@, r, final(io).heard@.len() as int),
{
    let ghost at = io.heard@.len() as int;
    let encrypted: bool = io.is_encrypted();
    let ghost answered = io.heard@;
    proof {
        assert(forall|heard: Seq<IoCall>|
            heard_extends(heard, answered) ==> #[trigger] heard[at] == answered[at]);
    }
    if !encrypted {
        writer.authentication_failed()?;
        return Err(VncError::Text("cold session encryption required"));
    }
    let armed = writer.arm(ArmedConfig { committed: requested, requested })?;
    require_continue(armed)?;
    let begun = writer.begin_trigger()?;
    require_continue(begun)?;
    let r = trigger_session(io, writer, requested);
    proof {
        assert forall|heard: Seq<IoCall>| heard_extends(heard, io.heard@) implies heard_extends(
            heard,
            answered,
        ) by {}
    }
    r
}

proof fn lemma_recorded_step(
    w: WriterView,
    pending: Option<usize>,
    committed: CaptureGeometry,
    heard: Seq<IoCall>,
    at: int,
    all: Seq<Call>,
    w1: WriterView,
    w2: WriterView,
    left: Option<usize>,
)
    requires
        0 <= at,
        at + 1 < heard.len(),
        capture_writer_model::polled(w, all) == (
            w1,
            Ok::<WriterDecision, VncError>(WriterDecision::Continue),
        ),
        heard[at] == IoCall::Cancelled(false),
        match heard[at + 1] {
            IoCall::Read(Ok(None)) => w2 == w1 && left == pending,
            IoCall::Read(Err(e)) => client::traced_to(e, client::FailureKind::TimedOut) && w2 == w1
                && left == pending,
            IoCall::Read(Ok(Some(frame))) => processed(w1, pending, committed, frame, all) == (
                (w2, Ok::<WriterDecision, VncError>(WriterDecision::Continue)),
                left,
            ),
            _ => false,
        },
    ensures
        recorded(w, pending, committed, heard, at, all) == recorded(
            w2,
            left,
            committed,
            heard,
            at + 2,
            all,
        ),
{
    reveal(recorded);
}

/// What the loop of a recording has shown so far: whatever comes after, the recording is as if it
/// had begun here.
pub open spec fn reached(
    w0: WriterView,
    committed: CaptureGeometry,
    at0: int,
    w: WriterView,
    pending: Option<usize>,
    so_far: Seq<IoCall>,
    heard: Seq<IoCall>,
    all: Seq<Call>,
) -> bool {
    heard_extends(heard, so_far) && capture_writer_model::extends(all, w.calls) ==> recorded(
        w0,
        None,
        committed,
        heard,
        at0,
        all,
    ) == recorded(w, pending, committed, heard, so_far.len() as int, all)
}

/// Records a session until it ends.
#[verifier::rlimit(40)]
fn record_session<I: ColdSessionIo, S: CaptureSink, C: CaptureClock>(
    io: &mut ObservedIo<I>,
    writer: &mut MvsCaptureV2Writer<S, C>,
    committed: CaptureGeometry,
) -> (r: Result<(), VncError>)
    requires
        old(writer).wf(),
        old(io).wf(),
    ensures
        final(writer).wf(),
        final(writer).continues(*old(writer)),
        final(io).wf(),
        final(io).start == old(io).start,
        capture_writer_model::extends(final(writer)@.calls, old(writer)@.calls),
        heard_extends(final(io).heard@, old(io).heard@),
        final(io).heard@.len() - old(io).heard@.len() < u64::MAX ==> forall|all: Seq<Call>|
            capture_writer_model::extends(all, final(writer)@.calls) ==> #[trigger] recorded(
                old(writer)@,
                None,
                committed,
                final(io).heard@,
                old(io).heard@.len() as int,
                all,
            ) == Some(((final(writer)@, r), final(io).heard@.len() as int)),
{
    let ghost w0 = writer@;
    let ghost at0 = io.heard@.len() as int;
    let mut pending: Option<usize> = None;
    let mut rounds: u64 = 0;
    while rounds < u64::MAX
        invariant
            writer.wf(),
            writer.continues(*old(writer)),
            io.wf(),
            io.start == old(io).start,
            capture_writer_model::extends(writer@.calls, w0.calls),
            heard_extends(io.heard@, old(io).heard@),
            w0 == old(writer)@,
            at0 == old(io).heard@.len(),
            io.heard@.len() >= at0 + rounds,
            forall|heard: Seq<IoCall>, all: Seq<Call>|
                #![trigger recorded(w0, None, committed, heard, at0, all)]
                reached(w0, committed, at0, writer@, pending, io.heard@, heard, all),
        decreases u64::MAX - rounds,
    {
        let ghost w = writer@;
        let ghost so_far = io.heard@;
        let ghost left = pending;
        let ghost at = so_far.len() as int;
        let watched = writer.poll_recording();
        let ghost w1 = writer@;
        proof {
            reveal(recorded);
        }
        match watched {
            Err(e) => {
                return Err(e);
            },
            Ok(WriterDecision::Finalized(CaptureState::Clean)) => {
                return Ok(());
            },
            Ok(WriterDecision::Finalized(_)) => {
                return Err(VncError::Text("cold session aborted"));
            },
            Ok(WriterDecision::Continue) => {},
        }
        let cancelled: bool = io.is_cancelled();
        if cancelled {
            let ended = writer.cancel();
            return match ended {
                Err(e) => Err(e),
                Ok(WriterDecision::Finalized(CaptureState::Clean)) => Ok(()),
                Ok(WriterDecision::Finalized(_)) => Err(VncError::Text("cold session cancelled")),
                Ok(WriterDecision::Continue) => Err(VncError::Text("cold cancellation state")),
            };
        }
        let read = io.read_frame_step();
        let ghost answer = read_answer(read);
        assert(io.heard@ == so_far.push(IoCall::Cancelled(false)).push(IoCall::Read(answer)));
        match read {
            Ok(None) => {},
            Err(error) => {
                if !is_timeout(&error) {
                    return finish_after_read_failure(writer);
                }
            },
            Ok(Some(frame)) => {
                let taken = process_frame(writer, &mut pending, committed, frame.as_slice());
                match taken {
                    Err(e) => {
                        return Err(e);
                    },
                    Ok(WriterDecision::Finalized(CaptureState::Clean)) => {
                        return Ok(());
                    },
                    Ok(WriterDecision::Finalized(_)) => {
                        return Err(VncError::Text("cold session aborted"));
                    },
                    Ok(WriterDecision::Continue) => {},
                }
            },
        }
        proof {
            assert forall|heard: Seq<IoCall>, all: Seq<Call>|
                #![trigger recorded(w0, None, committed, heard, at0, all)]
                reached(w0, committed, at0, writer@, pending, io.heard@, heard, all) by {
                if heard_extends(heard, io.heard@) && capture_writer_model::extends(
                    all,
                    writer@.calls,
                ) {
                    assert(heard_extends(heard, so_far));
                    assert(capture_writer_model::extends(all, w1.calls));
                    assert(capture_writer_model::extends(all, w.calls));
                    assert(reached(w0, committed, at0, w, left, so_far, heard, all));
                    assert(heard[at] == io.heard@[at]);
                    assert(heard[at + 1] == io.heard@[at + 1]);
                    lemma_recorded_step(
                        w,
                        left,
                        committed,
                        heard,
                        at,
                        all,
                        w1,
                        writer@,
                        pending,
                    );
                }
            }
        }
        rounds = rounds + 1;
    }
    Err(VncError::Text("cold session aborted"))
}

/// Runs a session from its opening to its end and captures it.
pub fn run_authenticated_cold_session_io<I: ColdSessionIo, S: CaptureSink, C: CaptureClock>(
    io: &mut ObservedIo<I>,
    writer: &mut MvsCaptureV2Writer<S, C>,
    requested: CaptureGeometry,
) -> (r: Result<(), VncError>)
    requires
        old(writer).wf(),
        old(io).wf(),
    ensures
        final(writer).wf(),
        final(writer).continues(*old(writer)),
        final(io).wf(),
        final(io).start == old(io).start,
        capture_writer_model::extends(final(writer)@.calls, old(writer)@.calls),
        heard_extends(final(io).heard@, old(io).heard@),
        final(io).heard@.len() - old(io).heard@.len() < u64::MAX ==> forall|all: Seq<Call>|
            capture_writer_model::extends(all, final(writer)@.calls) ==> #[trigger] session(
                old(writer)@,
                requested,
                final(io).heard@,
                old(io).heard@.len() as int,
                all,
            ) == Some(((final(writer)@, r), final(io).heard@.len() as int)),
{
    let goes_on: bool = open_session(io, writer, requested)?;
    if !goes_on {
        return Ok(());
    }
    let ghost opened_heard = io.heard@;
    let ghost opened_writer = writer@;
    let r = record_session(io, writer, requested);
    proof {
        assert(heard_extends(io.heard@, opened_heard));
        assert forall|all: Seq<Call>| capture_writer_model::extends(
            all,
            writer@.calls,
        ) implies capture_writer_model::extends(all, opened_writer.calls) by {}
    }
    r
}

/// Runs a session from its opening to its end and captures it.
pub fn run_authenticated_cold_session<I: ColdSessionIo, S: CaptureSink, C: CaptureClock>(
    io: &mut ObservedIo<I>,
    writer: &mut MvsCaptureV2Writer<S, C>,
    requested: CaptureGeometry,
) -> (r: Result<(), VncError>)
    requires
        old(writer).wf(),
        old(io).wf(),
    ensures
        final(writer).wf(),
        final(writer).continues(*old(writer)),
        final(io).wf(),
        final(io).start == old(io).start,
        capture_writer_model::extends(final(writer)@.calls, old(writer)@.calls),
        heard_extends(final(io).heard@, old(io).heard@),
        final(io).heard@.len() - old(io).heard@.len() < u64::MAX ==> forall|all: Seq<Call>|
            capture_writer_model::extends(all, final(writer)@.calls) ==> #[trigger] session(
                old(writer)@,
                requested,
                final(io).heard@,
                old(io).heard@.len() as int,
                all,
            ) == Some(((final(writer)@, r), final(io).heard@.len() as int)),
{
    run_authenticated_cold_session_io(io, writer, requested)
}

/// Accepts a session that was opened for a cold capture where it is encrypted.
pub fn connect_deadline_opts(client: VncClient, encrypted: bool) -> (r: Result<VncClient, VncError>)
    ensures
        r == (if encrypted {
            Ok::<VncClient, VncError>(client)
        } else {
            Err(VncError::Text("cold authentication"))
        }),
{
    if !encrypted {
        return Err(VncError::Text("cold authentication"));
    }
    Ok(client)
}

} // verus!
