//! Messages between stars: what is expected of their delivery, how often
//! they are sent again, and how their failures are told.

use vstd::prelude::*;
use vstd::string::StringExecFns;
use crate::error::Error;
use crate::kind::{Specific, SpecificView};
use crate::point::{Point, PointView};
use crate::star::{StarKey, StarKeyView};
use crate::text::{concat2, concat3};
use crate::wave::{Retries, WaitTime};

verus! {

/// To whom a message goes.
#[derive(Debug, PartialEq, Eq)]
pub enum ProtoStarMessageTo {
    Nobody,
    Star(StarKey),
    Resource(Point),
}

pub enum ProtoToView {
    Nobody,
    Star(StarKeyView),
    Resource(PointView),
}

impl View for ProtoStarMessageTo {
    type V = ProtoToView;

    open spec fn view(&self) -> ProtoToView {
        match self {
            ProtoStarMessageTo::Nobody => ProtoToView::Nobody,
            ProtoStarMessageTo::Star(k) => ProtoToView::Star(k@),
            ProtoStarMessageTo::Resource(p) => ProtoToView::Resource(p@),
        }
    }
}

impl ProtoStarMessageTo {
    /// Whether the message goes to nobody yet.
    pub fn is_none(&self) -> (r: bool)
        ensures
            r == (self@ is Nobody),
    {
        match self {
            ProtoStarMessageTo::Nobody => true,
            ProtoStarMessageTo::Star(_) => false,
            ProtoStarMessageTo::Resource(_) => false,
        }
    }
}

/// How long the sender of a message waits for an answer.
#[derive(Clone, Copy, Debug, PartialEq, Eq, Structural, Hash)]
pub enum MessageExpectWait {
    Short,
    Med,
    Long,
}

impl MessageExpectWait {
    pub open spec fn spec_wait_seconds(&self) -> u64 {
        match self {
            MessageExpectWait::Short => 5,
            MessageExpectWait::Med => 10,
            MessageExpectWait::Long => 30,
        }
    }

    /// The seconds to wait for an answer: 5, 10 or 30.
    #[verifier::when_used_as_spec(spec_wait_seconds)]
    pub fn wait_seconds(&self) -> (r: u64)
        ensures
            r == self.spec_wait_seconds(),
    {
        match self {
            MessageExpectWait::Short => 5,
            MessageExpectWait::Med => 10,
            MessageExpectWait::Long => 30,
        }
    }

    pub open spec fn spec_retries(&self) -> usize {
        match self {
            MessageExpectWait::Short => 5,
            MessageExpectWait::Med => 10,
            MessageExpectWait::Long => 15,
        }
    }

    /// How often the message is sent: 5, 10 or 15 times.
    #[verifier::when_used_as_spec(spec_retries)]
    pub fn retries(&self) -> (r: usize)
        ensures
            r == self.spec_retries(),
    {
        match self {
            MessageExpectWait::Short => 5,
            MessageExpectWait::Med => 10,
            MessageExpectWait::Long => 15,
        }
    }
}

/// What the sender of a message expects.
#[derive(Clone, Copy, Debug, PartialEq, Eq, Structural, Hash)]
pub enum MessageExpect {
    /// No answer.
    Nothing,
    /// An answer, an error or a timeout.
    ReplyErrOrTimeout(MessageExpectWait),
    /// An answer, however long it takes.
    RetryUntilOk,
}

impl MessageExpect {
    pub open spec fn spec_wait_seconds(&self) -> u64 {
        match self {
            MessageExpect::Nothing => 30,
            MessageExpect::ReplyErrOrTimeout(wait) => wait.spec_wait_seconds(),
            MessageExpect::RetryUntilOk => 5,
        }
    }

    /// The seconds to wait before the message is sent again.
    #[verifier::when_used_as_spec(spec_wait_seconds)]
    pub fn wait_seconds(&self) -> (r: u64)
        ensures
            r == self.spec_wait_seconds(),
    {
        match self {
            MessageExpect::Nothing => 30,
            MessageExpect::ReplyErrOrTimeout(wait) => wait.wait_seconds(),
            MessageExpect::RetryUntilOk => 5,
        }
    }

    pub open spec fn spec_retries(&self) -> usize {
        match self {
            MessageExpect::Nothing => 1,
            MessageExpect::ReplyErrOrTimeout(wait) => wait.spec_retries(),
            MessageExpect::RetryUntilOk => 10,
        }
    }

    /// How often the message is sent under one identifier.
    #[verifier::when_used_as_spec(spec_retries)]
    pub fn retries(&self) -> (r: usize)
        ensures
            r == self.spec_retries(),
    {
        match self {
            MessageExpect::Nothing => 1,
            MessageExpect::ReplyErrOrTimeout(wait) => wait.retries(),
            MessageExpect::RetryUntilOk => 10,
        }
    }

    pub open spec fn spec_retry_forever(&self) -> bool {
        *self == MessageExpect::RetryUntilOk
    }

    /// Whether the message is sent anew, under a fresh identifier, when
    /// its retries are used up.
    #[verifier::when_used_as_spec(spec_retry_forever)]
    pub fn retry_forever(&self) -> (r: bool)
        ensures
            r == self.spec_retry_forever(),
    {
        match self {
            MessageExpect::RetryUntilOk => true,
            _ => false,
        }
    }
}

/// What is done when no answer to a message came in time.
#[derive(Clone, Copy, Debug, PartialEq, Eq, Structural, Hash)]
pub enum DeliveryStep {
    /// Send the message again, under the same identifier.
    Resend,
    /// The identifier has expired: send the message anew under a fresh
    /// one.
    Resubmit,
    /// Tell the sender that the message timed out.
    TimedOut,
}

/// The watch over the delivery of one message.
#[derive(Clone, Copy, Debug, PartialEq, Eq, Structural, Hash)]
pub struct StarMessageDeliveryInsurance {
    pub expect: MessageExpect,
    /// How often the message may still be sent.
    pub retries: usize,
}

impl StarMessageDeliveryInsurance {
    /// The watch over a message with the expectation, before it was sent.
    pub fn new(expect: MessageExpect) -> (r: StarMessageDeliveryInsurance)
        ensures
            r.expect == expect,
            r.retries == expect.spec_retries(),
    {
        StarMessageDeliveryInsurance { expect, retries: expect.retries() }
    }

    /// The seconds to wait for the next event: two minutes where the
    /// retries are used up and the message is sent for ever, so that every
    /// earlier sending has expired; else what the expectation says.
    pub fn wait_seconds(&self) -> (r: u64)
        ensures
            r == (if self.retries == 0 && self.expect.spec_retry_forever() {
                120
            } else {
                self.expect.spec_wait_seconds()
            }),
    {
        if self.retries == 0 && self.expect.retry_forever() {
            120
        } else {
            self.expect.wait_seconds()
        }
    }

    /// What is done when no answer came in time: one retry is used up;
    /// while retries are left the message is sent again; when none is left
    /// a message that is sent for ever is sent anew, and any other has
    /// timed out.
    pub fn on_timeout(&mut self) -> (r: DeliveryStep)
        ensures
            final(self).expect == old(self).expect,
            final(self).retries == (if old(self).retries == 0 {
                0
            } else {
                (old(self).retries - 1) as usize
            }),
            r == (if final(self).retries > 0 {
                DeliveryStep::Resend
            } else if old(self).expect.spec_retry_forever() {
                DeliveryStep::Resubmit
            } else {
                DeliveryStep::TimedOut
            }),
    {
        if self.retries > 0 {
            self.retries = self.retries - 1;
        }
        if self.retries > 0 {
            DeliveryStep::Resend
        } else if self.expect.retry_forever() {
            DeliveryStep::Resubmit
        } else {
            DeliveryStep::TimedOut
        }
    }
}

impl Retries {
    /// The greatest number of times that a wave is sent, where there is
    /// one: once without retries, five times with medium retries.
    pub open spec fn spec_attempts(self) -> Option<u32> {
        match self {
            Retries::Never => Some(1),
            Retries::Medium => Some(5),
            Retries::Max => None,
        }
    }

    #[verifier::when_used_as_spec(spec_attempts)]
    pub fn attempts(self) -> (r: Option<u32>)
        ensures
            r == self.spec_attempts(),
    {
        match self {
            Retries::Never => Some(1),
            Retries::Medium => Some(5),
            Retries::Max => None,
        }
    }

    /// What is done when a wave that was sent `sent` times got no answer
    /// in time: it is sent anew under a fresh identifier while attempts are
    /// left, and has timed out else. Without retries a timeout is final;
    /// with the most retries it never is.
    pub fn on_timeout(self, sent: u32) -> (r: DeliveryStep)
        ensures
            r == (match self.spec_attempts() {
                Some(most) => if sent < most {
                    DeliveryStep::Resubmit
                } else {
                    DeliveryStep::TimedOut
                },
                None => DeliveryStep::Resubmit,
            }),
    {
        match self.attempts() {
            Some(most) => {
                if sent < most {
                    DeliveryStep::Resubmit
                } else {
                    DeliveryStep::TimedOut
                }
            },
            None => DeliveryStep::Resubmit,
        }
    }
}

impl WaitTime {
    pub open spec fn spec_seconds(self) -> u64 {
        match self {
            WaitTime::Low => 15,
            WaitTime::Med => 30,
            WaitTime::High => 60,
        }
    }

    /// The seconds that an answer is waited for: 15, 30 or 60.
    #[verifier::when_used_as_spec(spec_seconds)]
    pub fn seconds(self) -> (r: u64)
        ensures
            r == self.spec_seconds(),
    {
        match self {
            WaitTime::Low => 15,
            WaitTime::Med => 30,
            WaitTime::High => 60,
        }
    }
}

/// Whether the watch over the answers to a message goes on.
#[derive(Clone, Copy, Debug, PartialEq, Eq, Structural, Hash)]
pub enum TrackerJob {
    Continue,
    Done,
}

/// An answer to a message.
#[derive(Debug, PartialEq, Eq)]
pub enum SimpleReply {
    /// The message was done, with this to say.
    Done(Vec<u8>),
    /// The message failed.
    Fail(Fail),
    /// The message arrived.
    Ack(MessageAck),
}

/// The notice that a message arrived.
#[derive(Clone, Copy, Debug, PartialEq, Eq, Structural, Hash)]
pub struct MessageAck {
    pub id: u64,
}

/// What a message between stars carries.
#[derive(Debug, PartialEq, Eq)]
pub enum StarMessagePayload {
    Nothing,
    Reply(SimpleReply),
    Other(Vec<u8>),
}

/// How a message ended.
#[derive(Debug, PartialEq, Eq)]
pub enum MessageResult {
    Success(Vec<u8>),
    Failure(String),
    Timeout,
}

pub enum MessageResultView {
    Success(Seq<u8>),
    Failure(Seq<char>),
    Timeout,
}

impl View for MessageResult {
    type V = MessageResultView;

    open spec fn view(&self) -> MessageResultView {
        match self {
            MessageResult::Success(b) => MessageResultView::Success(b@),
            MessageResult::Failure(m) => MessageResultView::Failure(m@),
            MessageResult::Timeout => MessageResultView::Timeout,
        }
    }
}

impl MessageResult {
    /// The text of the result.
    pub fn to_string(&self) -> (r: String)
        ensures
            r@ == (match self@ {
                MessageResultView::Success(_) => "Ok"@,
                MessageResultView::Failure(m) => "Err("@ + m + ")"@,
                MessageResultView::Timeout => "Timeout"@,
            }),
    {
        match self {
            MessageResult::Success(_) => String::from_str("Ok"),
            MessageResult::Failure(m) => concat3("Err(", m.as_str(), ")"),
            MessageResult::Timeout => String::from_str("Timeout"),
        }
    }
}

/// News of a message for those who wait for its answer.
#[derive(Debug, PartialEq, Eq)]
pub enum MessageUpdate {
    Ack(MessageAck),
    Result(MessageResult),
}

pub enum MessageUpdateView {
    Ack(MessageAck),
    Result(MessageResultView),
}

impl View for MessageUpdate {
    type V = MessageUpdateView;

    open spec fn view(&self) -> MessageUpdateView {
        match self {
            MessageUpdate::Ack(a) => MessageUpdateView::Ack(*a),
            MessageUpdate::Result(r) => MessageUpdateView::Result(r@),
        }
    }
}

/// The watch over the answers to one message.
#[derive(Clone, Copy, Debug, PartialEq, Eq, Structural, Hash)]
pub struct MessageReplyTracker {
    /// The number of the message whose answers are watched.
    pub reply_to: u64,
}

impl MessageReplyTracker {
    /// Takes in a message that answers the watched one. A final answer
    /// ends the watch and is told to those who wait: a done message as
    /// success, a failed one as failure with the text of the failure. The
    /// notice of arrival is told, and the watch goes on. Any other message
    /// tells nothing.
    pub fn on_message(&self, payload: &StarMessagePayload) -> (r: (TrackerJob, Option<
        MessageUpdate,
    >))
        ensures
            match payload {
                StarMessagePayload::Reply(SimpleReply::Done(bytes)) => r.0 == TrackerJob::Done
                    && (r.1 matches Some(u) && u@ == MessageUpdateView::Result(
                    MessageResultView::Success(bytes@),
                )),
                StarMessagePayload::Reply(SimpleReply::Fail(fail)) => r.0 == TrackerJob::Done && (
                r.1 matches Some(u) && u@ == MessageUpdateView::Result(
                    MessageResultView::Failure(fail@.text()),
                )),
                StarMessagePayload::Reply(SimpleReply::Ack(ack)) => r.0 == TrackerJob::Continue
                    && (r.1 matches Some(u) && u@ == MessageUpdateView::Ack(*ack)),
                _ => r.0 == TrackerJob::Continue && r.1 is None,
            },
    {
        match payload {
            StarMessagePayload::Reply(reply) => match reply {
                SimpleReply::Done(bytes) => (
                    TrackerJob::Done,
                    Some(
                        MessageUpdate::Result(
                            MessageResult::Success(crate::wave::clone_bytes(bytes)),
                        ),
                    ),
                ),
                SimpleReply::Fail(fail) => (
                    TrackerJob::Done,
                    Some(MessageUpdate::Result(MessageResult::Failure(fail.to_string()))),
                ),
                SimpleReply::Ack(ack) => (TrackerJob::Continue, Some(MessageUpdate::Ack(*ack))),
            },
            _ => (TrackerJob::Continue, None),
        }
    }
}

/// A message before it is sent.
#[derive(Debug)]
pub struct ProtoStarMessage {
    pub to: ProtoStarMessageTo,
    pub payload: StarMessagePayload,
    pub expect: MessageExpect,
    pub reply_to: Option<u64>,
    pub trace: bool,
    pub log: bool,
}

impl ProtoStarMessage {
    /// A message to nobody with nothing to say.
    pub fn new() -> (r: ProtoStarMessage)
        ensures
            r.to@ is Nobody,
            r.payload is Nothing,
            r.expect == MessageExpect::Nothing,
            r.reply_to is None,
            !r.trace,
            !r.log,
    {
        ProtoStarMessage {
            to: ProtoStarMessageTo::Nobody,
            payload: StarMessagePayload::Nothing,
            expect: MessageExpect::Nothing,
            reply_to: None,
            trace: false,
            log: false,
        }
    }

    pub fn to(&mut self, to: ProtoStarMessageTo)
        ensures
            final(self).to == to,
            final(self).payload == old(self).payload,
            final(self).expect == old(self).expect,
            final(self).reply_to == old(self).reply_to,
    {
        self.to = to;
    }

    pub fn reply_to(&mut self, reply_to: u64)
        ensures
            final(self).reply_to == Some(reply_to),
            final(self).to == old(self).to,
            final(self).payload == old(self).payload,
            final(self).expect == old(self).expect,
    {
        self.reply_to = Some(reply_to);
    }

    /// Whether the message can be sent: it goes to someone and has
    /// something to say. The error names what is missing, one line each.
    pub fn validate(&self) -> (r: Result<(), Error>)
        ensures
            r is Ok <==> !(self.to@ is Nobody) && !(self.payload is Nothing),
            r matches Err(e) ==> e@ == (if self.to@ is Nobody {
                "must specify 'to' field\n"@
            } else {
                Seq::<char>::empty()
            }) + (if self.payload is Nothing {
                "must specify a message payload\n"@
            } else {
                Seq::<char>::empty()
            }),
    {
        let mut text = String::new();
        let mut bad = false;
        if self.to.is_none() {
            text.append("must specify 'to' field\n");
            bad = true;
        }
        let empty = match self.payload {
            StarMessagePayload::Nothing => true,
            _ => false,
        };
        if empty {
            text.append("must specify a message payload\n");
            bad = true;
        }
        if bad {
            proof {
                assert(text@ =~= (if self.to@ is Nobody {
                    "must specify 'to' field\n"@
                } else {
                    Seq::<char>::empty()
                }) + (if self.payload is Nothing {
                    "must specify a message payload\n"@
                } else {
                    Seq::<char>::empty()
                }));
            }
            Err(Error { message: text })
        } else {
            Ok(())
        }
    }
}

/// How a request was turned down.
#[derive(Clone, Copy, Debug, PartialEq, Eq, Structural, Hash)]
pub enum RejectKind {
    Error,
    Denied,
    BadRequest,
}

/// A request that was turned down.
#[derive(Debug, PartialEq, Eq, Hash)]
pub struct Reject {
    pub reason: String,
    pub kind: RejectKind,
}

/// A failure that is told to the sender of a message.
#[derive(Debug, PartialEq, Eq)]
pub enum Fail {
    Error(String),
    Reject(Reject),
    Unexpected { expected: String, received: String },
    DoNotKnowSpecific(Specific),
    ResourceStateFinal(Point),
    ResourceAddressAlreadyInUse(Point),
    ResourceNotFound(Point),
    ResourceTypeRequiresOwner,
    ChannelRecvErr,
    CannotSelectResourceHost,
    ResourceCannotGenerateAddress,
    SuitableHostNotAvailable(String),
    SqlError(String),
    ResourceTypeMismatch(String),
    Timeout,
    InvalidResourceState(String),
}

pub enum FailView {
    Error(Seq<char>),
    Reject,
    Unexpected { expected: Seq<char>, received: Seq<char> },
    DoNotKnowSpecific,
    ResourceStateFinal,
    ResourceAddressAlreadyInUse,
    ResourceNotFound(PointView),
    ResourceTypeRequiresOwner,
    ChannelRecvErr,
    CannotSelectResourceHost,
    ResourceCannotGenerateAddress,
    SuitableHostNotAvailable(Seq<char>),
    SqlError(Seq<char>),
    ResourceTypeMismatch(Seq<char>),
    Timeout,
    InvalidResourceState(Seq<char>),
}

impl View for Fail {
    type V = FailView;

    open spec fn view(&self) -> FailView {
        match self {
            Fail::Error(m) => FailView::Error(m@),
            Fail::Reject(_) => FailView::Reject,
            Fail::Unexpected { expected, received } => FailView::Unexpected {
                expected: expected@,
                received: received@,
            },
            Fail::DoNotKnowSpecific(_) => FailView::DoNotKnowSpecific,
            Fail::ResourceStateFinal(_) => FailView::ResourceStateFinal,
            Fail::ResourceAddressAlreadyInUse(_) => FailView::ResourceAddressAlreadyInUse,
            Fail::ResourceNotFound(p) => FailView::ResourceNotFound(p@),
            Fail::ResourceTypeRequiresOwner => FailView::ResourceTypeRequiresOwner,
            Fail::ChannelRecvErr => FailView::ChannelRecvErr,
            Fail::CannotSelectResourceHost => FailView::CannotSelectResourceHost,
            Fail::ResourceCannotGenerateAddress => FailView::ResourceCannotGenerateAddress,
            Fail::SuitableHostNotAvailable(d) => FailView::SuitableHostNotAvailable(d@),
            Fail::SqlError(d) => FailView::SqlError(d@),
            Fail::ResourceTypeMismatch(d) => FailView::ResourceTypeMismatch(d@),
            Fail::Timeout => FailView::Timeout,
            Fail::InvalidResourceState(m) => FailView::InvalidResourceState(m@),
        }
    }
}

impl FailView {
    /// The text of the failure.
    pub open spec fn text(self) -> Seq<char> {
        match self {
            FailView::Timeout => "Timeout"@,
            FailView::Error(m) => "Error("@ + m + ")"@,
            FailView::Reject => "Reject"@,
            FailView::Unexpected { expected, received } => "Unexpected( expected: "@ + expected
                + ", received: "@ + received + " )"@,
            FailView::DoNotKnowSpecific => "DoNotKnowSpecific"@,
            FailView::ResourceNotFound(p) => "ResourceNotFound("@ + crate::point::point_text(p)
                + ")"@,
            FailView::ChannelRecvErr => "ChannelRecvErr"@,
            FailView::ResourceTypeRequiresOwner => "ResourceTypeRequiresOwner"@,
            FailView::CannotSelectResourceHost => "CannotSelectResourceHost"@,
            FailView::ResourceCannotGenerateAddress => "ResourceCannotGenerateAddress"@,
            FailView::SuitableHostNotAvailable(d) => "SuitableHostNotAvailable("@ + d + ")"@,
            FailView::SqlError(d) => "SqlError("@ + d + ")"@,
            FailView::ResourceTypeMismatch(d) => "ResourceTypeMismatch("@ + d + ")"@,
            FailView::ResourceStateFinal => "ResourceStateFinal"@,
            FailView::ResourceAddressAlreadyInUse => "ResourceAddressAlreadyInUse"@,
            FailView::InvalidResourceState(m) => "InvalidResourceState("@ + m + ")"@,
        }
    }
}

impl Fail {
    /// The failure as it is, for a caller that notes it on the way.
    pub fn trace(fail: Fail) -> (r: Fail)
        ensures
            r == fail,
    {
        fail
    }

    /// The failure of something expected that did not come.
    pub fn expected(expected: &str) -> (r: Fail)
        ensures
            r@ == (FailView::Unexpected { expected: expected@, received: "_"@ }),
    {
        Fail::Unexpected {
            expected: String::from_str(expected),
            received: String::from_str("_"),
        }
    }

    /// The failure of something expected in whose place something else
    /// came.
    pub fn unexpected(expected: &str, received: &str) -> (r: Fail)
        ensures
            r@ == (FailView::Unexpected { expected: expected@, received: received@ }),
    {
        Fail::Unexpected {
            expected: String::from_str(expected),
            received: String::from_str(received),
        }
    }

    /// The text of the failure.
    pub fn to_string(&self) -> (r: String)
        ensures
            r@ == self@.text(),
    {
        match self {
            Fail::Timeout => String::from_str("Timeout"),
            Fail::Error(m) => concat3("Error(", m.as_str(), ")"),
            Fail::Reject(_) => String::from_str("Reject"),
            Fail::Unexpected { expected, received } => {
                let mut r = String::from_str("Unexpected( expected: ");
                r.append(expected.as_str());
                r.append(", received: ");
                r.append(received.as_str());
                r.append(" )");
                r
            },
            Fail::DoNotKnowSpecific(_) => String::from_str("DoNotKnowSpecific"),
            Fail::ResourceNotFound(p) => concat3("ResourceNotFound(", p.to_string().as_str(), ")"),
            Fail::ChannelRecvErr => String::from_str("ChannelRecvErr"),
            Fail::ResourceTypeRequiresOwner => String::from_str("ResourceTypeRequiresOwner"),
            Fail::CannotSelectResourceHost => String::from_str("CannotSelectResourceHost"),
            Fail::ResourceCannotGenerateAddress => String::from_str(
                "ResourceCannotGenerateAddress",
            ),
            Fail::SuitableHostNotAvailable(d) => concat3(
                "SuitableHostNotAvailable(",
                d.as_str(),
                ")",
            ),
            Fail::SqlError(d) => concat3("SqlError(", d.as_str(), ")"),
            Fail::ResourceTypeMismatch(d) => concat3("ResourceTypeMismatch(", d.as_str(), ")"),
            Fail::ResourceStateFinal(_) => String::from_str("ResourceStateFinal"),
            Fail::ResourceAddressAlreadyInUse(_) => String::from_str(
                "ResourceAddressAlreadyInUse",
            ),
            Fail::InvalidResourceState(m) => concat3("InvalidResourceState(", m.as_str(), ")"),
        }
    }
}

} // verus!
