//! Frames: the unit of transfer on a lane. On the wire a frame is its
//! length as four bytes, most significant first, and then its bytes.

use vstd::prelude::*;
use vstd::string::StrSliceExecFns;
use vstd::utf8::{decode_utf8, encode_utf8, valid_utf8};
use crate::kind::{Version, VersionView};

verus! {

/// The number of bytes that stand for the length of a frame.
pub const HEADER_LEN: usize = 4;

/// The greatest length of the bytes of a frame.
pub const MAX_FRAME_LEN: u64 = 0xffff_ffff;

/// A run of bytes that travels a lane as one piece.
#[derive(Debug, PartialEq, Eq, Hash)]
pub struct Frame {
    pub data: Vec<u8>,
}

impl View for Frame {
    type V = Seq<u8>;

    open spec fn view(&self) -> Seq<u8> {
        self.data@
    }
}

/// Why a frame could not be written or read.
#[derive(Clone, Copy, Debug, PartialEq, Eq, Structural, Hash)]
pub enum FrameError {
    /// The frame is longer than four bytes can say.
    TooLarge,
    /// The bytes of the frame are no text.
    NotText,
    /// The text of the frame is no version.
    NotAVersion,
}

/// The four bytes that stand for a length, most significant first.
pub open spec fn length_bytes(n: nat) -> Seq<u8> {
    seq![
        (n / 0x100_0000) as u8,
        ((n / 0x1_0000) % 0x100) as u8,
        ((n / 0x100) % 0x100) as u8,
        (n % 0x100) as u8,
    ]
}

/// The length that the first four bytes stand for.
pub open spec fn length_of(bytes: Seq<u8>) -> nat {
    (bytes[0] as nat) * 0x100_0000 + (bytes[1] as nat) * 0x1_0000 + (bytes[2] as nat) * 0x100 + (
    bytes[3] as nat)
}

/// The bytes of a frame on the wire.
pub open spec fn encoded(data: Seq<u8>) -> Seq<u8> {
    length_bytes(data.len()) + data
}

/// The first frame in a run of bytes, with the number of bytes that it
/// takes; `None` where the run does not hold a whole frame yet.
pub open spec fn decoded(bytes: Seq<u8>) -> Option<(Seq<u8>, nat)> {
    if bytes.len() < 4 {
        None
    } else {
        let n = length_of(bytes);
        if bytes.len() < 4 + n {
            None
        } else {
            Some((bytes.subrange(4, 4 + n as int), 4 + n))
        }
    }
}

/// The version that the outside parser reads from a text, if it reads
/// one.
pub uninterp spec fn semver_parse(text: Seq<char>) -> Option<VersionView>;

/// Reads a version from a text.
///
/// Calls `semver::Version::parse` and copies the fields of its result. The
/// result depends on the text alone; it is named here and not spelled out.
#[verifier::external_body]
pub(crate) fn parse_version(text: &str) -> (r: Option<Version>)
    ensures
        crate::kind::opt_version_view(r) == semver_parse(text@),
{
    match semver::Version::parse(text) {
        Ok(v) => Some(
            Version {
                major: v.major,
                minor: v.minor,
                patch: v.patch,
                pre: v.pre.as_str().to_string(),
                build: v.build.as_str().to_string(),
            },
        ),
        Err(_) => None,
    }
}

/// Reads a text from bytes.
///
/// Calls std's `String::from_utf8`, which gives the text that the bytes
/// encode where they are valid UTF-8, and fails else.
#[verifier::external_body]
pub(crate) fn text_from_utf8(bytes: Vec<u8>) -> (r: Option<String>)
    ensures
        r is Some <==> valid_utf8(bytes@),
        r matches Some(s) ==> s@ == decode_utf8(bytes@),
{
    String::from_utf8(bytes).ok()
}

/// The length that four bytes stand for is the length that they were made
/// from.
pub proof fn lemma_length_round_trip(n: nat)
    requires
        n <= 0xffff_ffff,
    ensures
        length_of(length_bytes(n)) == n,
        length_bytes(n).len() == 4,
{
    let b = length_bytes(n);
    assert(n / 0x100_0000 < 0x100);
    assert(b[0] as nat == n / 0x100_0000);
    assert(b[1] as nat == (n / 0x1_0000) % 0x100);
    assert(b[2] as nat == (n / 0x100) % 0x100);
    assert(b[3] as nat == n % 0x100);
}

/// A frame that is written and read again is the same frame, whatever
/// follows it on the wire; and no part of a frame on the wire reads as a
/// frame.
pub proof fn law_framing_round_trip(data: Seq<u8>, rest: Seq<u8>, cut: int)
    requires
        data.len() <= 0xffff_ffff,
        0 <= cut < encoded(data).len(),
    ensures
        decoded(encoded(data)) == Some((data, encoded(data).len())),
        decoded(encoded(data) + rest) == Some((data, encoded(data).len())),
        decoded(encoded(data).subrange(0, cut)) is None,
{
    lemma_length_round_trip(data.len());
    let wire = encoded(data);
    let more = wire + rest;
    assert(wire.len() == 4 + data.len());
    assert(wire[0] == length_bytes(data.len())[0]);
    assert(wire[1] == length_bytes(data.len())[1]);
    assert(wire[2] == length_bytes(data.len())[2]);
    assert(wire[3] == length_bytes(data.len())[3]);
    assert(length_of(wire) == data.len());
    assert(wire.subrange(4, 4 + data.len() as int) =~= data);
    assert(more[0] == wire[0] && more[1] == wire[1] && more[2] == wire[2] && more[3] == wire[3]);
    assert(length_of(more) == data.len());
    assert(more.subrange(4, 4 + data.len() as int) =~= data);
    let part = wire.subrange(0, cut);
    if cut >= 4 {
        assert(part[0] == wire[0] && part[1] == wire[1] && part[2] == wire[2] && part[3]
            == wire[3]);
        assert(length_of(part) == data.len());
    }
}

impl Frame {
    /// The frame with the given bytes.
    pub fn new(data: Vec<u8>) -> (r: Frame)
        ensures
            r@ == data@,
    {
        Frame { data }
    }

    /// The frame that holds a text, in UTF-8.
    pub fn from_string(string: String) -> (r: Frame)
        ensures
            r@ == encode_utf8(string@),
    {
        Frame { data: string.as_str().as_bytes_vec() }
    }

    /// The text that the frame holds. Fails where the bytes are no UTF-8.
    pub fn to_string(self) -> (r: Result<String, FrameError>)
        ensures
            r is Ok <==> valid_utf8(self@),
            r matches Ok(s) ==> s@ == decode_utf8(self@),
            r matches Err(e) ==> e == FrameError::NotText,
    {
        match text_from_utf8(self.data) {
            Some(s) => Ok(s),
            None => Err(FrameError::NotText),
        }
    }

    /// The frame that holds the text of a version.
    pub fn from_version(version: &Version) -> (r: Frame)
        ensures
            r@ == encode_utf8(version@.text()),
    {
        Frame::from_string(version.to_string())
    }

    /// The version that the frame holds. Fails where the bytes are no
    /// text, or the text is no version.
    pub fn to_version(self) -> (r: Result<Version, FrameError>)
        ensures
            !valid_utf8(self@) ==> r == Err::<Version, FrameError>(FrameError::NotText),
            valid_utf8(self@) ==> match semver_parse(decode_utf8(self@)) {
                Some(v) => r matches Ok(got) && got@ == v,
                None => r == Err::<Version, FrameError>(FrameError::NotAVersion),
            },
    {
        let text = match text_from_utf8(self.data) {
            Some(s) => s,
            None => {
                return Err(FrameError::NotText);
            },
        };
        match parse_version(text.as_str()) {
            Some(v) => Ok(v),
            None => Err(FrameError::NotAVersion),
        }
    }

    /// The bytes of the frame on the wire: its length as four bytes, most
    /// significant first, and then its bytes. Fails where the frame is
    /// longer than four bytes can say.
    pub fn encode(&self) -> (r: Result<Vec<u8>, FrameError>)
        ensures
            r is Ok <==> self@.len() <= 0xffff_ffff,
            r matches Ok(wire) ==> wire@ == encoded(self@),
            r matches Err(e) ==> e == FrameError::TooLarge,
    {
        let n = self.data.len();
        if n as u64 > MAX_FRAME_LEN {
            return Err(FrameError::TooLarge);
        }
        let mut wire: Vec<u8> = Vec::new();
        wire.push((n / 0x100_0000) as u8);
        wire.push(((n / 0x1_0000) % 0x100) as u8);
        wire.push(((n / 0x100) % 0x100) as u8);
        wire.push((n % 0x100) as u8);
        assert(wire@ =~= length_bytes(n as nat));
        let mut i: usize = 0;
        while i < n
            invariant
                i <= n,
                n == self.data.len(),
                wire@ == length_bytes(n as nat) + self.data@.subrange(0, i as int),
            decreases n - i,
        {
            wire.push(self.data[i]);
            assert(wire@ =~= length_bytes(n as nat) + self.data@.subrange(0, i as int + 1));
            i += 1;
        }
        assert(self.data@.subrange(0, n as int) =~= self.data@);
        Ok(wire)
    }

    /// The first frame in a run of bytes, with the number of bytes that it
    /// takes; `None` where the run does not hold a whole frame yet.
    pub fn decode(bytes: &Vec<u8>) -> (r: Option<(Frame, usize)>)
        ensures
            r is Some <==> decoded(bytes@) is Some,
            r matches Some(pair) ==> decoded(bytes@) == Some((pair.0@, pair.1 as nat)),
    {
        if bytes.len() < 4 {
            return None;
        }
        let n: u64 = (bytes[0] as u64) * 0x100_0000 + (bytes[1] as u64) * 0x1_0000 + (
        bytes[2] as u64) * 0x100 + (bytes[3] as u64);
        assert(n == length_of(bytes@));
        let have: u64 = (bytes.len() - 4) as u64;
        if have < n {
            return None;
        }
        let end: usize = 4 + (n as usize);
        let mut data: Vec<u8> = Vec::new();
        let mut i: usize = 4;
        while i < end
            invariant
                4 <= i <= end,
                end <= bytes.len(),
                data@ == bytes@.subrange(4, i as int),
            decreases end - i,
        {
            data.push(bytes[i]);
            assert(data@ =~= bytes@.subrange(4, i as int + 1));
            i += 1;
        }
        Some((Frame { data }, end))
    }
}

/// The whole frames at the start of a run of bytes, in order.
pub open spec fn frames_in(bytes: Seq<u8>) -> Seq<Seq<u8>>
    decreases bytes.len(),
{
    match decoded(bytes) {
        Some((data, used)) => seq![data] + frames_in(bytes.subrange(used as int, bytes.len() as int)),
        None => Seq::empty(),
    }
}

/// What is left of a run of bytes after its whole frames.
pub open spec fn rest_after_frames(bytes: Seq<u8>) -> Seq<u8>
    decreases bytes.len(),
{
    match decoded(bytes) {
        Some((data, used)) => rest_after_frames(bytes.subrange(used as int, bytes.len() as int)),
        None => bytes,
    }
}

/// The views of a sequence of frames.
pub open spec fn frame_views(v: Seq<Frame>) -> Seq<Seq<u8>> {
    Seq::new(v.len(), |i: int| v[i]@)
}

/// Collects the bytes that arrive on a lane and hands out whole frames.
#[derive(Debug)]
pub struct FrameReader {
    buffer: Vec<u8>,
}

impl View for FrameReader {
    type V = Seq<u8>;

    closed spec fn view(&self) -> Seq<u8> {
        self.buffer@
    }
}

impl FrameReader {
    /// A reader that has seen no bytes.
    pub fn new() -> (r: FrameReader)
        ensures
            r@ == Seq::<u8>::empty(),
    {
        FrameReader { buffer: Vec::new() }
    }

    /// Takes in bytes that arrived.
    pub fn feed(&mut self, bytes: &Vec<u8>)
        ensures
            final(self)@ == old(self)@ + bytes@,
    {
        let ghost start = self.buffer@;
        let mut i: usize = 0;
        while i < bytes.len()
            invariant
                i <= bytes.len(),
                self.buffer@ == start + bytes@.subrange(0, i as int),
            decreases bytes.len() - i,
        {
            self.buffer.push(bytes[i]);
            assert(self.buffer@ =~= start + bytes@.subrange(0, i as int + 1));
            i += 1;
        }
        assert(bytes@.subrange(0, bytes.len() as int) =~= bytes@);
    }

    /// Hands out the first frame where the bytes seen hold a whole one,
    /// and keeps the bytes after it. A frame of which only a part has
    /// arrived is never handed out.
    pub fn next_frame(&mut self) -> (r: Option<Frame>)
        ensures
            match decoded(old(self)@) {
                Some((data, used)) => r matches Some(f) && f@ == data && final(self)@ == old(
                    self,
                )@.subrange(used as int, old(self)@.len() as int),
                None => r is None && final(self)@ == old(self)@,
            },
    {
        match Frame::decode(&self.buffer) {
            Some((frame, used)) => {
                let mut rest: Vec<u8> = Vec::new();
                let mut i: usize = used;
                while i < self.buffer.len()
                    invariant
                        used <= i <= self.buffer.len(),
                        rest@ == self.buffer@.subrange(used as int, i as int),
                    decreases self.buffer.len() - i,
                {
                    rest.push(self.buffer[i]);
                    assert(rest@ =~= self.buffer@.subrange(used as int, i as int + 1));
                    i += 1;
                }
                self.buffer = rest;
                Some(frame)
            },
            None => None,
        }
    }
}

impl FrameReader {
    /// Hands out every whole frame that the bytes seen hold, in order,
    /// and keeps what follows them.
    pub fn drain(&mut self) -> (r: Vec<Frame>)
        ensures
            frame_views(r@) == frames_in(old(self)@),
            final(self)@ == rest_after_frames(old(self)@),
    {
        let mut frames: Vec<Frame> = Vec::new();
        let ghost start = self@;
        assert(frame_views(frames@) =~= Seq::<Seq<u8>>::empty());
        loop
            invariant
                frames_in(start) == frame_views(frames@) + frames_in(self@),
                rest_after_frames(start) == rest_after_frames(self@),
            ensures
                frame_views(frames@) == frames_in(start),
                self@ == rest_after_frames(start),
            decreases self@.len(),
        {
            let ghost before = self@;
            let ghost got = frame_views(frames@);
            match self.next_frame() {
                Some(frame) => {
                    frames.push(frame);
                    assert(frame_views(frames@) =~= got.push(frame@));
                    assert(got + (seq![frame@] + frames_in(self@)) =~= got.push(frame@)
                        + frames_in(self@));
                },
                None => {
                    assert(frames_in(before) =~= Seq::<Seq<u8>>::empty());
                    assert(got + Seq::<Seq<u8>>::empty() =~= got);
                    break ;
                },
            }
        }
        frames
    }
}

/// Why a lane stops.
#[derive(Clone, Copy, Debug, PartialEq, Eq, Structural, Hash)]
pub enum MuxStop {
    /// The endpoint sends no more waves.
    Disconnected,
    /// The connection failed or delivered what is no wave.
    ReadFailed,
    /// The lane was told to stop.
    Terminated,
    /// A wave is too long for a frame.
    TooLarge,
}

/// What happens to a lane that carries waves.
#[derive(Debug, PartialEq, Eq)]
pub enum MuxEvent {
    /// The endpoint sends a wave, serialized.
    Outbound(Vec<u8>),
    /// The endpoint has gone.
    OutboundClosed,
    /// Bytes arrived on the connection.
    Bytes(Vec<u8>),
    /// The connection failed, or a frame held what is no wave.
    ReadFailed,
    /// The lane is told to stop.
    Terminate,
}

/// What the lane is to do.
#[derive(Debug, PartialEq, Eq)]
pub enum MuxAction {
    /// Write these bytes to the connection and flush it.
    Write(Vec<u8>),
    /// Hand the payloads of these frames to the endpoint, in order.
    Deliver(Vec<Frame>),
    /// Stop the lane.
    Stop(MuxStop),
}

/// The two directions of a lane over one connection.
#[derive(Debug)]
pub struct FrameMuxer {
    pub reader: FrameReader,
}

impl FrameMuxer {
    pub fn new() -> (r: FrameMuxer)
        ensures
            r.reader@ == Seq::<u8>::empty(),
    {
        FrameMuxer { reader: FrameReader::new() }
    }

    /// One step of the lane: a wave of the endpoint is written as one
    /// frame; the bytes that arrived are handed out frame by frame, as far
    /// as whole frames have arrived; and the lane stops when the endpoint
    /// has gone, the connection fails or the lane is told to.
    pub fn mux(&mut self, event: MuxEvent) -> (r: MuxAction)
        ensures
            match event {
                MuxEvent::Outbound(payload) => final(self).reader@ == old(self).reader@ && (
                if payload@.len() <= 0xffff_ffff {
                    r matches MuxAction::Write(wire) && wire@ == encoded(payload@)
                } else {
                    r == MuxAction::Stop(MuxStop::TooLarge)
                }),
                MuxEvent::Bytes(bytes) => (r matches MuxAction::Deliver(frames) && frame_views(
                    frames@,
                ) == frames_in(old(self).reader@ + bytes@)) && final(self).reader@
                    == rest_after_frames(old(self).reader@ + bytes@),
                MuxEvent::OutboundClosed => r == MuxAction::Stop(MuxStop::Disconnected)
                    && final(self).reader@ == old(self).reader@,
                MuxEvent::ReadFailed => r == MuxAction::Stop(MuxStop::ReadFailed)
                    && final(self).reader@ == old(self).reader@,
                MuxEvent::Terminate => r == MuxAction::Stop(MuxStop::Terminated)
                    && final(self).reader@ == old(self).reader@,
            },
    {
        match event {
            MuxEvent::Outbound(payload) => {
                match Frame::new(payload).encode() {
                    Ok(wire) => MuxAction::Write(wire),
                    Err(_) => MuxAction::Stop(MuxStop::TooLarge),
                }
            },
            MuxEvent::Bytes(bytes) => {
                self.reader.feed(&bytes);
                MuxAction::Deliver(self.reader.drain())
            },
            MuxEvent::OutboundClosed => MuxAction::Stop(MuxStop::Disconnected),
            MuxEvent::ReadFailed => MuxAction::Stop(MuxStop::ReadFailed),
            MuxEvent::Terminate => MuxAction::Stop(MuxStop::Terminated),
        }
    }
}

} // verus!
