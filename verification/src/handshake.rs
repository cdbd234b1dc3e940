//! The handshake of a lane: both ends send their version, compare it with
//! the version of the other end, and tell the other end the outcome.

use vstd::prelude::*;
use vstd::string::StringExecFns;
use vstd::utf8::{decode_utf8, encode_utf8, valid_utf8};
use crate::frame::{semver_parse, Frame, FrameError};
use crate::kind::{Version, VersionView};

verus! {

/// The seconds that an end waits for each frame of the other end.
pub const HANDSHAKE_TIMEOUT_SECS: u64 = 30;

/// Why a handshake failed.
#[derive(Clone, Copy, Debug, PartialEq, Eq, Structural, Hash)]
pub enum HandshakeError {
    /// The other end runs another version.
    VersionMismatch,
    /// The other end did not answer in time.
    Timeout,
    /// The other end sent a frame that is no version.
    BadFrame,
    /// The other end did not accept this end.
    Rejected,
    /// The connection was lost.
    Closed,
}

/// How far a handshake has come.
#[derive(Clone, Copy, Debug, PartialEq, Eq, Structural, Hash)]
pub enum HandshakeState {
    /// Nothing was sent yet.
    Start,
    /// The version was sent; the version of the other end is awaited.
    AwaitVersion,
    /// The versions were equal; the verdict of the other end is awaited.
    AwaitStatus,
    /// Both ends agree: the endpoint is mounted.
    Ready,
    /// The handshake failed; the lane is closed.
    Failed(HandshakeError),
}

/// What happens to a lane during the handshake.
#[derive(Debug, PartialEq, Eq)]
pub enum HandshakeEvent {
    /// A frame arrived.
    Frame(Frame),
    /// No frame arrived in time.
    Timeout,
    /// The connection was lost.
    Closed,
}

pub enum HandshakeEventView {
    Frame(Seq<u8>),
    Timeout,
    Closed,
}

impl View for HandshakeEvent {
    type V = HandshakeEventView;

    open spec fn view(&self) -> HandshakeEventView {
        match self {
            HandshakeEvent::Frame(f) => HandshakeEventView::Frame(f@),
            HandshakeEvent::Timeout => HandshakeEventView::Timeout,
            HandshakeEvent::Closed => HandshakeEventView::Closed,
        }
    }
}

/// What the lane is to do.
#[derive(Debug, PartialEq, Eq)]
pub enum HandshakeAction {
    /// Send the frame.
    Send(Frame),
    /// Report the failure of the handshake on the status channel.
    Report(HandshakeError),
    /// Close the connection.
    Close,
    /// Mount the endpoint: the lane is ready for waves.
    Mount,
}

pub enum HandshakeActionView {
    Send(Seq<u8>),
    Report(HandshakeError),
    Close,
    Mount,
}

impl View for HandshakeAction {
    type V = HandshakeActionView;

    open spec fn view(&self) -> HandshakeActionView {
        match self {
            HandshakeAction::Send(f) => HandshakeActionView::Send(f@),
            HandshakeAction::Report(e) => HandshakeActionView::Report(*e),
            HandshakeAction::Close => HandshakeActionView::Close,
            HandshakeAction::Mount => HandshakeActionView::Mount,
        }
    }
}

/// The views of a sequence of actions.
pub open spec fn handshake_actions_view(v: Seq<HandshakeAction>) -> Seq<HandshakeActionView> {
    Seq::new(v.len(), |i: int| v[i]@)
}

/// The frame that tells the version of an end.
pub open spec fn hello(v: VersionView) -> Seq<u8> {
    encode_utf8(v.text())
}

/// The frame that accepts the other end.
pub open spec fn ok_frame() -> Seq<u8> {
    encode_utf8("Ok"@)
}

/// The text that tells the other end that its version is not the
/// expected one.
pub open spec fn mismatch_text(expected: VersionView, encountered: VersionView) -> Seq<char> {
    "Err(\"expected version "@ + expected.text() + ". encountered version "@
        + encountered.text() + "\")"@
}

/// The failure of a handshake that ends by an event that is no frame.
pub open spec fn interrupted(event: HandshakeEventView) -> HandshakeError {
    match event {
        HandshakeEventView::Timeout => HandshakeError::Timeout,
        _ => HandshakeError::Closed,
    }
}

/// The version that a frame tells, if it tells one.
pub open spec fn version_in(bytes: Seq<u8>) -> Option<VersionView> {
    if valid_utf8(bytes) {
        semver_parse(decode_utf8(bytes))
    } else {
        None
    }
}

/// What an end with the version `local` does once the frame with the
/// version of the other end was read: the same version is answered with
/// the frame `Ok`; another version is answered with the mismatch text, and
/// the handshake fails; a frame that told no version fails the handshake.
pub open spec fn version_step(local: VersionView, peer: Option<VersionView>) -> (
    HandshakeState,
    Seq<HandshakeActionView>,
) {
    match peer {
        None => (
            HandshakeState::Failed(HandshakeError::BadFrame),
            seq![
                HandshakeActionView::Report(HandshakeError::BadFrame),
                HandshakeActionView::Close,
            ],
        ),
        Some(peer) => if peer == local {
            (HandshakeState::AwaitStatus, seq![HandshakeActionView::Send(ok_frame())])
        } else {
            (
                HandshakeState::Failed(HandshakeError::VersionMismatch),
                seq![
                    HandshakeActionView::Report(HandshakeError::VersionMismatch),
                    HandshakeActionView::Send(encode_utf8(mismatch_text(local, peer))),
                    HandshakeActionView::Close,
                ],
            )
        },
    }
}

/// The version that was read, without the reason where none was.
pub open spec fn read_view(peer: Result<Version, FrameError>) -> Option<VersionView> {
    match peer {
        Ok(v) => Some(v@),
        Err(_) => None,
    }
}

/// One step of the handshake of the end with the version `local`: the
/// state after the event, and what the lane is to do.
///
/// While the version of the other end is awaited: a frame with the same
/// version is answered with the frame `Ok`; a frame with another version
/// is answered with the mismatch text, and the handshake fails; a frame
/// that holds no version fails the handshake. While the verdict is
/// awaited: the frame `Ok` makes the lane ready, any other frame fails the
/// handshake. A timeout or a lost connection fails the handshake in either
/// state. Every failure is reported, and the connection is closed. Once
/// the handshake is over, nothing happens any more.
pub open spec fn step(local: VersionView, state: HandshakeState, event: HandshakeEventView) -> (
    HandshakeState,
    Seq<HandshakeActionView>,
) {
    match state {
        HandshakeState::AwaitVersion => match event {
            HandshakeEventView::Frame(bytes) => version_step(local, version_in(bytes)),
            _ => (
                HandshakeState::Failed(interrupted(event)),
                seq![
                    HandshakeActionView::Report(interrupted(event)),
                    HandshakeActionView::Close,
                ],
            ),
        },
        HandshakeState::AwaitStatus => match event {
            HandshakeEventView::Frame(bytes) => {
                if bytes == ok_frame() {
                    (HandshakeState::Ready, seq![HandshakeActionView::Mount])
                } else {
                    (
                        HandshakeState::Failed(HandshakeError::Rejected),
                        seq![
                            HandshakeActionView::Report(HandshakeError::Rejected),
                            HandshakeActionView::Close,
                        ],
                    )
                }
            },
            _ => (
                HandshakeState::Failed(interrupted(event)),
                seq![
                    HandshakeActionView::Report(interrupted(event)),
                    HandshakeActionView::Close,
                ],
            ),
        },
        _ => (state, Seq::empty()),
    }
}

/// The handshake of one end of a lane.
#[derive(Debug)]
pub struct Handshake {
    pub local: Version,
    pub state: HandshakeState,
}

/// The two actions of a failure: report it, close the connection.
fn fail(error: HandshakeError) -> (r: Vec<HandshakeAction>)
    ensures
        handshake_actions_view(r@) == seq![
            HandshakeActionView::Report(error),
            HandshakeActionView::Close,
        ],
{
    let mut r: Vec<HandshakeAction> = Vec::new();
    r.push(HandshakeAction::Report(error));
    r.push(HandshakeAction::Close);
    assert(handshake_actions_view(r@) =~= seq![
        HandshakeActionView::Report(error),
        HandshakeActionView::Close,
    ]);
    r
}

impl Handshake {
    /// The handshake of an end with the given version, before anything
    /// was sent.
    pub fn new(local: Version) -> (r: Handshake)
        ensures
            r.local@ == local@,
            r.state == HandshakeState::Start,
    {
        Handshake { local, state: HandshakeState::Start }
    }

    /// Begins the handshake: the version of this end is to be sent. A
    /// handshake that has begun already goes on as it is.
    pub fn begin(&mut self) -> (r: Vec<HandshakeAction>)
        ensures
            final(self).local@ == old(self).local@,
            old(self).state == HandshakeState::Start ==> final(self).state
                == HandshakeState::AwaitVersion && handshake_actions_view(r@) == seq![
                HandshakeActionView::Send(hello(old(self).local@)),
            ],
            old(self).state != HandshakeState::Start ==> final(self).state == old(self).state
                && r@.len() == 0,
    {
        let mut r: Vec<HandshakeAction> = Vec::new();
        match self.state {
            HandshakeState::Start => {
                r.push(HandshakeAction::Send(Frame::from_version(&self.local)));
                self.state = HandshakeState::AwaitVersion;
                assert(handshake_actions_view(r@) =~= seq![
                    HandshakeActionView::Send(hello(self.local@)),
                ]);
            },
            _ => {},
        }
        r
    }

    /// Whether the handshake is over, well or badly.
    pub fn is_over(&self) -> (r: bool)
        ensures
            r == (self.state == HandshakeState::Ready || self.state is Failed),
    {
        match self.state {
            HandshakeState::Ready => true,
            HandshakeState::Failed(_) => true,
            _ => false,
        }
    }

    /// Takes in what was read from the frame with the version of the
    /// other end. Where no version is awaited, nothing happens.
    pub fn on_version(&mut self, peer: Result<Version, FrameError>) -> (r: Vec<HandshakeAction>)
        ensures
            final(self).local@ == old(self).local@,
            old(self).state == HandshakeState::AwaitVersion ==> (
                final(self).state,
                handshake_actions_view(r@),
            ) == version_step(old(self).local@, read_view(peer)),
            old(self).state != HandshakeState::AwaitVersion ==> final(self).state == old(
                self,
            ).state && r@.len() == 0,
    {
        let ghost local = self.local@;
        match self.state {
            HandshakeState::AwaitVersion => {},
            _ => {
                return Vec::new();
            },
        }
        match peer {
            Ok(peer) => {
                if peer.same(&self.local) {
                    self.state = HandshakeState::AwaitStatus;
                    let mut r: Vec<HandshakeAction> = Vec::new();
                    r.push(HandshakeAction::Send(Frame::from_string(String::from_str("Ok"))));
                    assert(handshake_actions_view(r@) =~= seq![
                        HandshakeActionView::Send(ok_frame()),
                    ]);
                    r
                } else {
                    self.state = HandshakeState::Failed(HandshakeError::VersionMismatch);
                    let mut text = String::from_str("Err(\"expected version ");
                    text.append(self.local.to_string().as_str());
                    text.append(". encountered version ");
                    text.append(peer.to_string().as_str());
                    text.append("\")");
                    assert(text@ =~= mismatch_text(local, peer@));
                    let mut r: Vec<HandshakeAction> = Vec::new();
                    r.push(HandshakeAction::Report(HandshakeError::VersionMismatch));
                    r.push(HandshakeAction::Send(Frame::from_string(text)));
                    r.push(HandshakeAction::Close);
                    assert(handshake_actions_view(r@) =~= seq![
                        HandshakeActionView::Report(HandshakeError::VersionMismatch),
                        HandshakeActionView::Send(encode_utf8(mismatch_text(local, peer@))),
                        HandshakeActionView::Close,
                    ]);
                    r
                }
            },
            Err(_) => {
                self.state = HandshakeState::Failed(HandshakeError::BadFrame);
                fail(HandshakeError::BadFrame)
            },
        }
    }

    /// Takes one step of the handshake.
    pub fn on_event(&mut self, event: HandshakeEvent) -> (r: Vec<HandshakeAction>)
        ensures
            final(self).local@ == old(self).local@,
            (final(self).state, handshake_actions_view(r@)) == step(
                old(self).local@,
                old(self).state,
                event@,
            ),
    {
        let ghost local = self.local@;
        match self.state {
            HandshakeState::AwaitVersion => {
                match event {
                    HandshakeEvent::Frame(frame) => self.on_version(frame.to_version()),
                    HandshakeEvent::Timeout => {
                        self.state = HandshakeState::Failed(HandshakeError::Timeout);
                        fail(HandshakeError::Timeout)
                    },
                    HandshakeEvent::Closed => {
                        self.state = HandshakeState::Failed(HandshakeError::Closed);
                        fail(HandshakeError::Closed)
                    },
                }
            },
            HandshakeState::AwaitStatus => {
                match event {
                    HandshakeEvent::Frame(frame) => {
                        let ok = Frame::from_string(String::from_str("Ok"));
                        if same_bytes(&frame.data, &ok.data) {
                            self.state = HandshakeState::Ready;
                            let mut r: Vec<HandshakeAction> = Vec::new();
                            r.push(HandshakeAction::Mount);
                            assert(handshake_actions_view(r@) =~= seq![HandshakeActionView::Mount]);
                            r
                        } else {
                            self.state = HandshakeState::Failed(HandshakeError::Rejected);
                            fail(HandshakeError::Rejected)
                        }
                    },
                    HandshakeEvent::Timeout => {
                        self.state = HandshakeState::Failed(HandshakeError::Timeout);
                        fail(HandshakeError::Timeout)
                    },
                    HandshakeEvent::Closed => {
                        self.state = HandshakeState::Failed(HandshakeError::Closed);
                        fail(HandshakeError::Closed)
                    },
                }
            },
            _ => {
                let r: Vec<HandshakeAction> = Vec::new();
                assert(handshake_actions_view(r@) =~= Seq::<HandshakeActionView>::empty());
                r
            },
        }
    }
}

/// Whether two runs of bytes are the same.
pub fn same_bytes(a: &Vec<u8>, b: &Vec<u8>) -> (r: bool)
    ensures
        r == (a@ == b@),
{
    if a.len() != b.len() {
        return false;
    }
    let mut i: usize = 0;
    while i < a.len()
        invariant
            i <= a.len(),
            a.len() == b.len(),
            forall|j: int| 0 <= j < i ==> a@[j] == b@[j],
        decreases a.len() - i,
    {
        if a[i] != b[i] {
            return false;
        }
        i += 1;
    }
    assert(a@ =~= b@);
    true
}

/// Whether a run of actions mounts the endpoint.
pub open spec fn mounts(actions: Seq<HandshakeActionView>) -> bool {
    actions.contains(HandshakeActionView::Mount)
}

/// The handshake between an end with the version `a` and an end with the
/// version `b`, once each has read the version of the other: where the
/// versions are equal, each end sends `Ok`, and mounts its endpoint when
/// the `Ok` of the other arrives; where they differ, both ends fail with a
/// version mismatch, each tells the other which version it expected, and
/// neither mounts an endpoint, whatever arrives afterwards.
pub proof fn law_handshake_versions(a: VersionView, b: VersionView)
    ensures
        ({
            let a1 = version_step(a, Some(b));
            let b1 = version_step(b, Some(a));
            if a == b {
                &&& a1 == (HandshakeState::AwaitStatus, seq![HandshakeActionView::Send(ok_frame())])
                &&& b1 == (HandshakeState::AwaitStatus, seq![HandshakeActionView::Send(ok_frame())])
                &&& step(a, a1.0, HandshakeEventView::Frame(ok_frame())) == (
                    HandshakeState::Ready,
                    seq![HandshakeActionView::Mount],
                )
                &&& step(b, b1.0, HandshakeEventView::Frame(ok_frame())) == (
                    HandshakeState::Ready,
                    seq![HandshakeActionView::Mount],
                )
            } else {
                &&& a1.0 == HandshakeState::Failed(HandshakeError::VersionMismatch)
                &&& b1.0 == HandshakeState::Failed(HandshakeError::VersionMismatch)
                &&& !mounts(a1.1)
                &&& !mounts(b1.1)
                &&& a1.1[1] == HandshakeActionView::Send(encode_utf8(mismatch_text(a, b)))
                &&& b1.1[1] == HandshakeActionView::Send(encode_utf8(mismatch_text(b, a)))
                &&& forall|event: HandshakeEventView|
                    step(a, a1.0, event) == (a1.0, Seq::<HandshakeActionView>::empty())
                &&& forall|event: HandshakeEventView|
                    step(b, b1.0, event) == (b1.0, Seq::<HandshakeActionView>::empty())
            }
        }),
{
    if a != b {
        let a1 = version_step(a, Some(b));
        let b1 = version_step(b, Some(a));
        assert(!mounts(a1.1)) by {
            if mounts(a1.1) {
                let i = choose|i: int| 0 <= i < a1.1.len() && a1.1[i] == HandshakeActionView::Mount;
                assert(i == 0 || i == 1 || i == 2);
            }
        }
        assert(!mounts(b1.1)) by {
            if mounts(b1.1) {
                let i = choose|i: int| 0 <= i < b1.1.len() && b1.1[i] == HandshakeActionView::Mount;
                assert(i == 0 || i == 1 || i == 2);
            }
        }
    }
}

/// The handshake between an end with the version `a` and an end with the
/// version `b`, each of which reads back from its own text: where the
/// versions are equal, both ends accept each other and mount their
/// endpoints; where they differ, both ends fail with a version mismatch,
/// and neither mounts an endpoint.
pub proof fn law_handshake(a: VersionView, b: VersionView)
    requires
        semver_parse(a.text()) == Some(a),
        semver_parse(b.text()) == Some(b),
    ensures
        ({
            let a1 = step(a, HandshakeState::AwaitVersion, HandshakeEventView::Frame(hello(b)));
            let b1 = step(b, HandshakeState::AwaitVersion, HandshakeEventView::Frame(hello(a)));
            if a == b {
                &&& a1 == (HandshakeState::AwaitStatus, seq![HandshakeActionView::Send(ok_frame())])
                &&& b1 == (HandshakeState::AwaitStatus, seq![HandshakeActionView::Send(ok_frame())])
                &&& step(a, a1.0, HandshakeEventView::Frame(ok_frame())) == (
                    HandshakeState::Ready,
                    seq![HandshakeActionView::Mount],
                )
                &&& step(b, b1.0, HandshakeEventView::Frame(ok_frame())) == (
                    HandshakeState::Ready,
                    seq![HandshakeActionView::Mount],
                )
            } else {
                &&& a1.0 == HandshakeState::Failed(HandshakeError::VersionMismatch)
                &&& b1.0 == HandshakeState::Failed(HandshakeError::VersionMismatch)
                &&& !mounts(a1.1)
                &&& !mounts(b1.1)
                &&& a1.1[1] == HandshakeActionView::Send(encode_utf8(mismatch_text(a, b)))
                &&& b1.1[1] == HandshakeActionView::Send(encode_utf8(mismatch_text(b, a)))
                &&& forall|event: HandshakeEventView|
                    step(a, a1.0, event) == (a1.0, Seq::<HandshakeActionView>::empty())
                &&& forall|event: HandshakeEventView|
                    step(b, b1.0, event) == (b1.0, Seq::<HandshakeActionView>::empty())
            }
        }),
{
    vstd::utf8::encode_utf8_valid_utf8(a.text());
    vstd::utf8::encode_utf8_decode_utf8(a.text());
    vstd::utf8::encode_utf8_valid_utf8(b.text());
    vstd::utf8::encode_utf8_decode_utf8(b.text());
    let a1 = step(a, HandshakeState::AwaitVersion, HandshakeEventView::Frame(hello(b)));
    let b1 = step(b, HandshakeState::AwaitVersion, HandshakeEventView::Frame(hello(a)));
    if a != b {
        assert(!mounts(a1.1)) by {
            assert(a1.1.len() == 3);
            if a1.1.contains(HandshakeActionView::Mount) {
                let i = choose|i: int| 0 <= i < a1.1.len() && a1.1[i] == HandshakeActionView::Mount;
                assert(i == 0 || i == 1 || i == 2);
            }
        }
        assert(!mounts(b1.1)) by {
            assert(b1.1.len() == 3);
            if b1.1.contains(HandshakeActionView::Mount) {
                let i = choose|i: int| 0 <= i < b1.1.len() && b1.1[i] == HandshakeActionView::Mount;
                assert(i == 0 || i == 1 || i == 2);
            }
        }
    }
}

/// A handshake that does not get its frame in time fails, whatever it was
/// waiting for, and mounts no endpoint.
pub proof fn law_handshake_timeout(local: VersionView, state: HandshakeState)
    requires
        state == HandshakeState::AwaitVersion || state == HandshakeState::AwaitStatus,
    ensures
        step(local, state, HandshakeEventView::Timeout).0 == HandshakeState::Failed(
            HandshakeError::Timeout,
        ),
        !mounts(step(local, state, HandshakeEventView::Timeout).1),
{
    let actions = step(local, state, HandshakeEventView::Timeout).1;
    assert(actions.len() == 2);
    if actions.contains(HandshakeActionView::Mount) {
        let i = choose|i: int| 0 <= i < actions.len() && actions[i] == HandshakeActionView::Mount;
        assert(i == 0 || i == 1);
    }
}

} // verus!
