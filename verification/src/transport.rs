//! One command/response exchange over a byte stream.
//!
//! The host writes a frame and reads two bytes of acknowledgement. After
//! `FL` come two bytes of error code. After `OK` come, unless the response
//! is known to be empty, two bytes of payload length and then the payload.
//! [`Exchange`] decides, reply by reply, what to read next and how the
//! exchange ends; [`Transport`] carries the decisions out on a link, and
//! says of each of its functions which calls it made on the link and what
//! it made of their answers.

use crate::commands::{frame, Command, Response};
use crate::error::{Error, ErrorView};
use crate::wire::{
    lemma_u16_from_le_bytes, read_u16_le, read_u32_le, u16_from_le, u16_le_bytes, u32_from_le,
};
use vstd::prelude::*;

verus! {

/// The acknowledgement of a command that succeeded: the letters `OK`.
pub open spec fn ack_ok() -> Seq<u8> {
    seq![0x4fu8, 0x4bu8]
}

/// The acknowledgement of a command that failed: the letters `FL`.
pub open spec fn ack_fail() -> Seq<u8> {
    seq![0x46u8, 0x4cu8]
}

/// What an exchange is waiting for once the frame is written.
#[derive(Debug, Clone, Copy, PartialEq, Eq, Structural)]
pub enum Exchange {
    /// The acknowledgement comes next.
    AwaitAck { expects_payload: bool },
    /// The device answered `FL`; its error code comes next.
    AckError,
    /// The device answered `OK`; the payload length comes next.
    AwaitLength,
    /// `len` bytes of payload come next.
    AwaitPayload { len: u16 },
}

/// Where an exchange stands after a reply.
#[derive(Debug, PartialEq, Eq)]
pub enum Progress {
    /// More is to be read.
    Pending(Exchange),
    /// The exchange is over and gave this payload.
    Complete(Vec<u8>),
    /// The exchange is over and failed.
    Failed(Error),
}

/// A [`Progress`] with its contents as mathematical values.
pub enum ProgressView {
    Pending(Exchange),
    Complete(Seq<u8>),
    Failed(ErrorView),
}

impl View for Progress {
    type V = ProgressView;

    open spec fn view(&self) -> ProgressView {
        match self {
            Progress::Pending(state) => ProgressView::Pending(*state),
            Progress::Complete(payload) => ProgressView::Complete(payload@),
            Progress::Failed(error) => ProgressView::Failed(error@),
        }
    }
}

impl Exchange {
    /// The state right after the frame is written. A size hint of exactly
    /// zero says that nothing follows the device's `OK`.
    pub open spec fn start(hint: Option<usize>) -> Exchange {
        Exchange::AwaitAck { expects_payload: hint != Some(0usize) }
    }

    /// How many bytes are to be read next.
    pub open spec fn wanted(self) -> nat {
        match self {
            Exchange::AwaitAck { .. } => 2,
            Exchange::AckError => 2,
            Exchange::AwaitLength => 2,
            Exchange::AwaitPayload { len } => len as nat,
        }
    }

    /// Where the exchange stands after `reply` was read. A reply that has
    /// not the length asked for, or an acknowledgement that is neither `OK`
    /// nor `FL`, ends the exchange as a protocol violation that carries the
    /// reply.
    pub open spec fn step(self, reply: Seq<u8>) -> ProgressView {
        if reply.len() != self.wanted() {
            ProgressView::Failed(ErrorView::ProtocolViolation(reply))
        } else {
            match self {
                Exchange::AwaitAck { expects_payload } => {
                    if reply == ack_fail() {
                        ProgressView::Pending(Exchange::AckError)
                    } else if reply != ack_ok() {
                        ProgressView::Failed(ErrorView::ProtocolViolation(reply))
                    } else if expects_payload {
                        ProgressView::Pending(Exchange::AwaitLength)
                    } else {
                        ProgressView::Complete(Seq::empty())
                    }
                },
                Exchange::AckError => ProgressView::Failed(
                    ErrorView::DeviceError(u16_from_le(reply)),
                ),
                Exchange::AwaitLength => {
                    if u16_from_le(reply) == 0 {
                        ProgressView::Complete(Seq::empty())
                    } else {
                        ProgressView::Pending(Exchange::AwaitPayload { len: u16_from_le(reply) })
                    }
                },
                Exchange::AwaitPayload { .. } => ProgressView::Complete(reply),
            }
        }
    }

    /// Where the exchange stands after the replies were read one after the
    /// other. Replies that come after its end are not looked at.
    pub open spec fn run(self, replies: Seq<Seq<u8>>) -> ProgressView
        decreases replies.len(),
    {
        if replies.len() == 0 {
            ProgressView::Pending(self)
        } else {
            match self.step(replies.first()) {
                ProgressView::Pending(next) => next.run(replies.drop_first()),
                over => over,
            }
        }
    }

    /// An upper bound on the number of reads still to come.
    pub open spec fn reads_left(self) -> nat {
        match self {
            Exchange::AwaitAck { .. } => 3,
            Exchange::AckError => 1,
            Exchange::AwaitLength => 2,
            Exchange::AwaitPayload { .. } => 1,
        }
    }

    /// The exchange right after the frame is written.
    pub fn begin(hint: Option<usize>) -> (state: Exchange)
        ensures
            state == Exchange::start(hint),
    {
        let expects_payload = match hint {
            Some(n) => n != 0,
            None => true,
        };
        Exchange::AwaitAck { expects_payload }
    }

    /// How many bytes are to be read next.
    pub fn wants(&self) -> (n: usize)
        ensures
            n == self.wanted(),
    {
        match self {
            Exchange::AwaitAck { .. } => 2,
            Exchange::AckError => 2,
            Exchange::AwaitLength => 2,
            Exchange::AwaitPayload { len } => *len as usize,
        }
    }

    /// Takes the bytes that were read and says where the exchange stands.
    pub fn receive(self, reply: Vec<u8>) -> (progress: Progress)
        ensures
            progress@ == self.step(reply@),
            progress matches Progress::Pending(next) ==> next.reads_left() < self.reads_left(),
    {
        if reply.len() != self.wants() {
            return Progress::Failed(Error::ProtocolViolation(reply));
        }
        match self {
            Exchange::AwaitAck { expects_payload } => {
                let first = reply[0];
                let second = reply[1];
                if first == 0x46 && second == 0x4c {
                    assert(reply@ =~= ack_fail());
                    Progress::Pending(Exchange::AckError)
                } else if first != 0x4f || second != 0x4b {
                    Progress::Failed(Error::ProtocolViolation(reply))
                } else {
                    assert(reply@ =~= ack_ok());
                    if expects_payload {
                        Progress::Pending(Exchange::AwaitLength)
                    } else {
                        Progress::Complete(Vec::new())
                    }
                }
            },
            Exchange::AckError => Progress::Failed(
                Error::DeviceError(read_u16_le(reply.as_slice())),
            ),
            Exchange::AwaitLength => {
                let len = read_u16_le(reply.as_slice());
                if len == 0 {
                    Progress::Complete(Vec::new())
                } else {
                    Progress::Pending(Exchange::AwaitPayload { len })
                }
            },
            Exchange::AwaitPayload { .. } => Progress::Complete(reply),
        }
    }
}

/// Whatever the response shape, `FL` followed by a code ends the exchange
/// with that code as a device error.
pub proof fn lemma_fail_ack_gives_device_error(hint: Option<usize>, code: u16)
    ensures
        Exchange::start(hint).run(seq![ack_fail(), u16_le_bytes(code)]) == ProgressView::Failed(
            ErrorView::DeviceError(code),
        ),
{
    let replies = seq![ack_fail(), u16_le_bytes(code)];
    lemma_u16_from_le_bytes(code);
    reveal_with_fuel(Exchange::run, 3);
    assert(replies.drop_first() =~= seq![u16_le_bytes(code)]);
    assert(replies.first() == ack_fail());
    assert(replies.drop_first().first() == u16_le_bytes(code));
}

/// When the response is known to be empty, the exchange is over with the
/// `OK`: no length and no payload are read, whatever the device sends next.
pub proof fn lemma_bare_ok_ends_exchange(later: Seq<Seq<u8>>)
    ensures
        Exchange::start(Some(0usize)).step(ack_ok()) == ProgressView::Complete(Seq::empty()),
        Exchange::start(Some(0usize)).run(seq![ack_ok()] + later) == ProgressView::Complete(
            Seq::empty(),
        ),
{
    assert(ack_fail() != ack_ok()) by {
        assert(ack_fail()[0] != ack_ok()[0]);
    }
    let replies = seq![ack_ok()] + later;
    assert(replies.first() == ack_ok());
}

/// Whether an exchange for a response with this size hint can end with
/// `payload`: whether there are replies after which it does.
pub open spec fn possible_payload(hint: Option<usize>, payload: Seq<u8>) -> bool {
    exists|replies: Seq<Seq<u8>>| #[trigger]
        Exchange::start(hint).run(replies) == ProgressView::Complete(payload)
}

/// Whether `value` is what some payload decodes to that an exchange for a
/// response of this shape can end with.
pub open spec fn possible_response<R: Response>(value: R) -> bool {
    exists|payload: Seq<u8>|
        possible_payload(R::expected_size(), payload) && #[trigger] R::decoded(payload, Ok(value))
}

/// A payload that an exchange ends with is never longer than the length
/// field can say, and is empty where the response is known to be empty.
pub proof fn lemma_possible_payload_bounds(hint: Option<usize>, payload: Seq<u8>)
    requires
        possible_payload(hint, payload),
    ensures
        payload.len() <= 0xffff,
        hint == Some(0usize) ==> payload.len() == 0,
{
    let replies = choose|replies: Seq<Seq<u8>>| #[trigger]
        Exchange::start(hint).run(replies) == ProgressView::Complete(payload);
    reveal_with_fuel(Exchange::run, 4);
}

/// Reading one more reply, while the exchange is under way, is one more step.
proof fn lemma_run_push(start: Exchange, replies: Seq<Seq<u8>>, reply: Seq<u8>)
    requires
        start.run(replies) is Pending,
    ensures
        start.run(replies.push(reply)) == start.run(replies)->Pending_0.step(reply),
    decreases replies.len(),
{
    reveal_with_fuel(Exchange::run, 2);
    if replies.len() == 0 {
        assert(replies.push(reply).drop_first() =~= Seq::<Seq<u8>>::empty());
    } else {
        assert(replies.push(reply).drop_first() =~= replies.drop_first().push(reply));
        assert(replies.push(reply).first() == replies.first());
        match start.step(replies.first()) {
            ProgressView::Pending(next) => {
                lemma_run_push(next, replies.drop_first(), reply);
            },
            _ => {},
        }
    }
}

/// The message of the error that a write of too few bytes ends in.
pub const SHORT_WRITE: &'static str = "write_bytes: n != buf.len()";

/// Judges a write of `len` bytes of which the link took `written`: taking
/// fewer is a failure of the link.
pub fn written_in_full(written: usize, len: usize) -> (r: Result<(), Error>)
    ensures
        written == len ==> r is Ok,
        written != len ==> (r matches Err(e) && e@ == ErrorView::Io(SHORT_WRITE@)),
{
    if written == len {
        Ok(())
    } else {
        Err(Error::Io(SHORT_WRITE.to_string()))
    }
}

/// Reads a little-endian `u16` from what should be two bytes.
pub fn u16_field(bytes: Vec<u8>) -> (r: Result<u16, Error>)
    ensures
        bytes@.len() == 2 ==> r == Ok::<u16, Error>(u16_from_le(bytes@)),
        bytes@.len() != 2 ==> (r matches Err(e) && e@ == ErrorView::ProtocolViolation(bytes@)),
{
    if bytes.len() != 2 {
        return Err(Error::ProtocolViolation(bytes));
    }
    Ok(read_u16_le(bytes.as_slice()))
}

/// Reads a little-endian `u32` from what should be four bytes.
pub fn u32_field(bytes: Vec<u8>) -> (r: Result<u32, Error>)
    ensures
        bytes@.len() == 4 ==> r == Ok::<u32, Error>(u32_from_le(bytes@)),
        bytes@.len() != 4 ==> (r matches Err(e) && e@ == ErrorView::ProtocolViolation(bytes@)),
{
    if bytes.len() != 4 {
        return Err(Error::ProtocolViolation(bytes));
    }
    Ok(read_u32_le(bytes.as_slice()))
}

/// One call on the link: what it was given and what came back.
pub enum Io {
    /// A call of `write_bytes` with these bytes.
    Write(Seq<u8>, Result<(), Error>),
    /// A call of `read_bytes` for this many bytes.
    Read(usize, Result<Vec<u8>, Error>),
}

/// Whether each of `calls` leads, as `law` has it, from one of `states` to
/// the next.
pub open spec fn chained<T>(law: spec_fn(T, Io, T) -> bool, states: Seq<T>, calls: Seq<Io>) -> bool {
    &&& states.len() == calls.len() + 1
    &&& forall|i: int| 0 <= i < calls.len() ==> law(states[i], #[trigger] calls[i], states[i + 1])
}

/// Whether `calls`, made one after the other and with nothing between them,
/// lead the link from `before` to `after`.
pub open spec fn performed<T>(law: spec_fn(T, Io, T) -> bool, before: T, calls: Seq<Io>, after: T) -> bool {
    exists|states: Seq<T>|
        #![trigger chained(law, states, calls)]
        chained(law, states, calls) && states.first() == before && states.last() == after
}

/// Whether a read that came back as `got`, while the exchange waited as
/// `state`, ends the exchange with `r`: a failure of the link is handed on as
/// it is, and a reply ends the exchange as [`Exchange::step`] says.
pub open spec fn concluded(
    state: Exchange,
    got: Result<Vec<u8>, Error>,
    r: Result<Vec<u8>, Error>,
) -> bool {
    match got {
        Err(e) => r == Err::<Vec<u8>, Error>(e),
        Ok(reply) => match state.step(reply@) {
            ProgressView::Pending(_) => false,
            ProgressView::Complete(payload) => r matches Ok(p) && p@ == payload,
            ProgressView::Failed(error) => r matches Err(e) && e@ == error,
        },
    }
}

/// Whether `reads` are the reads of an exchange that waits as `state`, and
/// `r` is what the exchange hands back: each read asks for as many bytes as
/// the exchange wants then, every read but the last leaves the exchange under
/// way, and the last one ends it with `r`.
pub open spec fn reads_follow(state: Exchange, reads: Seq<Io>, r: Result<Vec<u8>, Error>) -> bool
    decreases reads.len(),
{
    &&& reads.len() > 0
    &&& match reads.first() {
        Io::Write(_, _) => false,
        Io::Read(n, got) => {
            &&& n == state.wanted()
            &&& match got {
                Ok(reply) => match state.step(reply@) {
                    ProgressView::Pending(next) => reads_follow(next, reads.drop_first(), r),
                    _ => reads.len() == 1 && concluded(state, got, r),
                },
                Err(_) => reads.len() == 1 && concluded(state, got, r),
            }
        },
    }
}

/// Whether `calls` are the calls of one exchange and `r` is what it hands
/// back: first the write of `frame`, which ends the exchange if it fails;
/// then the reads of an exchange begun with `hint`.
pub open spec fn conducted(
    frame: Seq<u8>,
    hint: Option<usize>,
    calls: Seq<Io>,
    r: Result<Vec<u8>, Error>,
) -> bool {
    &&& calls.len() > 0
    &&& match calls.first() {
        Io::Write(buf, written) => {
            &&& buf == frame
            &&& match written {
                Ok(_) => reads_follow(Exchange::start(hint), calls.drop_first(), r),
                Err(e) => calls.len() == 1 && r == Err::<Vec<u8>, Error>(e),
            }
        },
        Io::Read(_, _) => false,
    }
}

/// Whether one exchange leads the link from `before` to `after` and hands
/// back `r`: whether there are calls that it [`conducted`] and that the link
/// [`performed`].
pub open spec fn exchanged<T>(
    law: spec_fn(T, Io, T) -> bool,
    before: T,
    frame: Seq<u8>,
    hint: Option<usize>,
    r: Result<Vec<u8>, Error>,
    after: T,
) -> bool {
    exists|calls: Seq<Io>|
        #![trigger performed(law, before, calls, after)]
        performed(law, before, calls, after) && conducted(frame, hint, calls, r)
}

/// Whatever the response shape, an exchange in which the device answers
/// `FL` reads two more bytes and nothing after them; if they come, it ends
/// with the device error whose code they spell.
pub proof fn lemma_fail_ack_ends_in_device_error(
    frame: Seq<u8>,
    hint: Option<usize>,
    calls: Seq<Io>,
    r: Result<Vec<u8>, Error>,
    ack: Vec<u8>,
)
    requires
        conducted(frame, hint, calls, r),
        calls.len() >= 2,
        calls.first() matches Io::Write(_, Ok(_)),
        calls[1] == Io::Read(2, Ok::<Vec<u8>, Error>(ack)),
        ack@ == ack_fail(),
    ensures
        calls.len() == 3,
        calls[2] matches Io::Read(n, _) && n == 2,
        calls[2] matches Io::Read(_, Ok(code)) ==> (code@.len() == 2 ==> (r matches Err(e) && e@
            == ErrorView::DeviceError(u16_from_le(code@)))),
{
    let reads = calls.drop_first();
    reveal_with_fuel(reads_follow, 3);
    assert(reads.first() == calls[1]);
    assert(reads_follow(Exchange::AckError, reads.drop_first(), r));
    assert(reads.drop_first().first() == calls[2]);
}

/// When the response is known to be empty, an exchange in which the device
/// answers `OK` is over with that read: no length and no payload are read.
pub proof fn lemma_bare_ok_is_the_last_read(
    frame: Seq<u8>,
    calls: Seq<Io>,
    r: Result<Vec<u8>, Error>,
    ack: Vec<u8>,
)
    requires
        conducted(frame, Some(0usize), calls, r),
        calls.len() >= 2,
        calls.first() matches Io::Write(_, Ok(_)),
        calls[1] == Io::Read(2, Ok::<Vec<u8>, Error>(ack)),
        ack@ == ack_ok(),
    ensures
        calls.len() == 2,
        r matches Ok(payload) && payload@.len() == 0,
{
    let reads = calls.drop_first();
    reveal_with_fuel(reads_follow, 2);
    assert(reads.first() == calls[1]);
    assert(ack_fail() != ack_ok()) by {
        assert(ack_fail()[0] != ack_ok()[0]);
    }
}

/// The state in which an exchange waits after `reads`, if each of them asked
/// for what the exchange wanted and left it under way.
spec fn waiting_after(state: Exchange, reads: Seq<Io>) -> Option<Exchange>
    decreases reads.len(),
{
    if reads.len() == 0 {
        Some(state)
    } else {
        match reads.first() {
            Io::Read(n, Ok(reply)) => match state.step(reply@) {
                ProgressView::Pending(next) => if n == state.wanted() {
                    waiting_after(next, reads.drop_first())
                } else {
                    None
                },
                _ => None,
            },
            _ => None,
        }
    }
}

/// One more read that leaves the exchange under way moves the state it waits
/// in.
proof fn lemma_waiting_after_push(
    start: Exchange,
    reads: Seq<Io>,
    state: Exchange,
    reply: Vec<u8>,
    next: Exchange,
)
    requires
        waiting_after(start, reads) == Some(state),
        state.step(reply@) == ProgressView::Pending(next),
    ensures
        waiting_after(start, reads.push(Io::Read(state.wanted() as usize, Ok(reply)))) == Some(next),
    decreases reads.len(),
{
    let read = Io::Read(state.wanted() as usize, Ok(reply));
    let longer = reads.push(read);
    reveal_with_fuel(waiting_after, 2);
    if reads.len() == 0 {
        assert(longer.drop_first() =~= Seq::<Io>::empty());
    } else {
        assert(longer.drop_first() =~= reads.drop_first().push(read));
        assert(longer.first() == reads.first());
        match reads.first() {
            Io::Read(n, Ok(first_reply)) => match start.step(first_reply@) {
                ProgressView::Pending(second) => {
                    lemma_waiting_after_push(second, reads.drop_first(), state, reply, next);
                },
                _ => {},
            },
            _ => {},
        }
    }
}

/// A read that ends the exchange, after reads that left it under way, makes
/// them the reads of that exchange.
proof fn lemma_reads_follow_close(
    start: Exchange,
    reads: Seq<Io>,
    state: Exchange,
    got: Result<Vec<u8>, Error>,
    r: Result<Vec<u8>, Error>,
)
    requires
        waiting_after(start, reads) == Some(state),
        concluded(state, got, r),
    ensures
        reads_follow(start, reads.push(Io::Read(state.wanted() as usize, got)), r),
    decreases reads.len(),
{
    let read = Io::Read(state.wanted() as usize, got);
    let longer = reads.push(read);
    reveal_with_fuel(waiting_after, 2);
    reveal_with_fuel(reads_follow, 2);
    if reads.len() == 0 {
        assert(longer.drop_first() =~= Seq::<Io>::empty());
        assert(longer.first() == read);
    } else {
        assert(longer.drop_first() =~= reads.drop_first().push(read));
        assert(longer.first() == reads.first());
        match reads.first() {
            Io::Read(n, Ok(first_reply)) => match start.step(first_reply@) {
                ProgressView::Pending(second) => {
                    lemma_reads_follow_close(second, reads.drop_first(), state, got, r);
                },
                _ => {},
            },
            _ => {},
        }
    }
}

/// The link to the device: a stream of bytes in each direction.
///
/// An implementation supplies [`read_bytes`](Transport::read_bytes) and
/// [`write_bytes`](Transport::write_bytes). Nothing is assumed of what they
/// do: what they hand back is checked before it is used, and an error of
/// theirs ends the call and is handed on unchanged. Their contracts only give
/// what they do a name, [`law`](Transport::law), so that the functions built
/// on them can say which calls they made and what they made of the answers.
pub trait Transport: Sized {
    /// How the link behaves: whether a call, on the link in the first state,
    /// can come back as the [`Io`] records it and leave the link in the second
    /// state. An implementation is free in this; one that says nothing
    /// allows every outcome.
    open spec fn law() -> spec_fn(Self, Io, Self) -> bool {
        |before: Self, call: Io, after: Self| true
    }

    /// Reads `n` bytes. An implementation may hand back the fewer bytes it
    /// got, or fail; either way the callers here give up.
    fn read_bytes(&mut self, n: usize) -> (r: Result<Vec<u8>, Error>)
        ensures
            (Self::law())(*old(self), Io::Read(n, r), *final(self)),
    ;

    /// Writes all of `buf`, or fails.
    fn write_bytes(&mut self, buf: &[u8]) -> (r: Result<(), Error>)
        ensures
            (Self::law())(*old(self), Io::Write(buf@, r), *final(self)),
    ;

    /// Writes `frame`, then reads the answer as far as an [`Exchange`] begun
    /// with `hint` asks for it, and hands back the payload it ends with.
    fn exchange(&mut self, frame: &[u8], hint: Option<usize>) -> (r: Result<Vec<u8>, Error>)
        ensures
            exchanged(Self::law(), *old(self), frame@, hint, r, *final(self)),
            r matches Ok(payload) ==> possible_payload(hint, payload@),
    {
        let written = self.write_bytes(frame);
        let ghost mut calls: Seq<Io> = seq![Io::Write(frame@, written)];
        let ghost mut states: Seq<Self> = seq![*old(self), *self];
        match written {
            Ok(()) => {},
            Err(e) => {
                proof {
                    assert(chained(Self::law(), states, calls));
                    assert(performed(Self::law(), *old(self), calls, *self));
                }
                return Err(e);
            },
        }
        let mut state = Exchange::begin(hint);
        let ghost mut replies: Seq<Seq<u8>> = Seq::empty();
        proof {
            assert(calls.drop_first() =~= Seq::<Io>::empty());
        }
        loop
            invariant
                Exchange::start(hint).run(replies) == ProgressView::Pending(state),
                chained(Self::law(), states, calls),
                states.first() == *old(self),
                states.last() == *self,
                calls.len() > 0,
                calls.first() == Io::Write(frame@, written),
                written is Ok,
                waiting_after(Exchange::start(hint), calls.drop_first()) == Some(state),
            decreases state.reads_left(),
        {
            let got = self.read_bytes(state.wants());
            let ghost reads = calls.drop_first();
            proof {
                calls = calls.push(Io::Read(state.wanted() as usize, got));
                states = states.push(*self);
                assert(calls.drop_first() =~= reads.push(Io::Read(state.wanted() as usize, got)));
                assert(chained(Self::law(), states, calls));
                assert(performed(Self::law(), *old(self), calls, *self));
            }
            let reply = match got {
                Ok(reply) => reply,
                Err(e) => {
                    proof {
                        lemma_reads_follow_close(
                            Exchange::start(hint),
                            reads,
                            state,
                            got,
                            Err::<Vec<u8>, Error>(e),
                        );
                    }
                    return Err(e);
                },
            };
            proof {
                lemma_run_push(Exchange::start(hint), replies, reply@);
                replies = replies.push(reply@);
            }
            match state.receive(reply) {
                Progress::Pending(next) => {
                    proof {
                        lemma_waiting_after_push(Exchange::start(hint), reads, state, reply, next);
                    }
                    state = next;
                },
                Progress::Complete(payload) => {
                    proof {
                        lemma_reads_follow_close(
                            Exchange::start(hint),
                            reads,
                            state,
                            got,
                            Ok::<Vec<u8>, Error>(payload),
                        );
                    }
                    return Ok(payload);
                },
                Progress::Failed(error) => {
                    proof {
                        lemma_reads_follow_close(
                            Exchange::start(hint),
                            reads,
                            state,
                            got,
                            Err::<Vec<u8>, Error>(error),
                        );
                    }
                    return Err(error);
                },
            }
        }
    }

    /// Sends `cmd` and decodes the device's answer: one exchange with the
    /// command's frame and the size hint of its response, and then, if the
    /// exchange gave a payload, the response's decoder on that payload.
    fn send_command<C: Command>(&mut self, cmd: C) -> (r: Result<C::Response, Error>)
        ensures
            exists|got: Result<Vec<u8>, Error>|
                #![trigger exchanged(
                    Self::law(),
                    *old(self),
                    frame(cmd.id(), cmd.payload()),
                    C::Response::expected_size(),
                    got,
                    *final(self),
                )]
                exchanged(
                    Self::law(),
                    *old(self),
                    frame(cmd.id(), cmd.payload()),
                    C::Response::expected_size(),
                    got,
                    *final(self),
                ) && match got {
                    Ok(payload) => C::Response::decoded(payload@, r),
                    Err(e) => r == Err::<C::Response, Error>(e),
                },
            r matches Ok(value) ==> possible_response(value),
    {
        let raw = cmd.to_raw();
        let got = self.exchange(raw.as_slice(), C::Response::size_hint());
        let payload = match got {
            Ok(payload) => payload,
            Err(e) => {
                return Err(e);
            },
        };
        C::Response::from_raw(payload.as_slice())
    }

    /// Reads a length as the UART link sends it: one read of two bytes,
    /// taken least significant first. A failure of the link is handed on as
    /// it is; a reply of another size is a protocol violation that carries
    /// the reply.
    fn read_u16(&mut self) -> (r: Result<u16, Error>)
        ensures
            exists|got: Result<Vec<u8>, Error>|
                #![trigger (Self::law())(*old(self), Io::Read(2, got), *final(self))]
                (Self::law())(*old(self), Io::Read(2, got), *final(self)) && match got {
                    Ok(bytes) => if bytes@.len() == 2 {
                        r == Ok::<u16, Error>(u16_from_le(bytes@))
                    } else {
                        r matches Err(e) && e@ == ErrorView::ProtocolViolation(bytes@)
                    },
                    Err(e) => r == Err::<u16, Error>(e),
                },
    {
        match self.read_bytes(2) {
            Ok(bytes) => u16_field(bytes),
            Err(e) => Err(e),
        }
    }

    /// Reads a length as the SDIO link sends it: one read of four bytes,
    /// taken least significant first. A failure of the link is handed on as
    /// it is; a reply of another size is a protocol violation that carries
    /// the reply.
    fn read_u32(&mut self) -> (r: Result<u32, Error>)
        ensures
            exists|got: Result<Vec<u8>, Error>|
                #![trigger (Self::law())(*old(self), Io::Read(4, got), *final(self))]
                (Self::law())(*old(self), Io::Read(4, got), *final(self)) && match got {
                    Ok(bytes) => if bytes@.len() == 4 {
                        r == Ok::<u32, Error>(u32_from_le(bytes@))
                    } else {
                        r matches Err(e) && e@ == ErrorView::ProtocolViolation(bytes@)
                    },
                    Err(e) => r == Err::<u32, Error>(e),
                },
    {
        match self.read_bytes(4) {
            Ok(bytes) => u32_field(bytes),
            Err(e) => Err(e),
        }
    }

    /// Sends a frame made elsewhere and waits for the acknowledgement alone:
    /// one exchange in which nothing is read after an `OK`. It succeeds
    /// exactly if the exchange does.
    fn call_raw_no_resp(&mut self, cmd: &[u8]) -> (r: Result<(), Error>)
        ensures
            exists|got: Result<Vec<u8>, Error>|
                #![trigger exchanged(Self::law(), *old(self), cmd@, Some(0usize), got, *final(self))]
                exchanged(Self::law(), *old(self), cmd@, Some(0usize), got, *final(self))
                    && match got {
                    Ok(_) => r is Ok,
                    Err(e) => r == Err::<(), Error>(e),
                },
    {
        match self.exchange(cmd, Some(0)) {
            Ok(_) => Ok(()),
            Err(e) => Err(e),
        }
    }

    /// Sends a frame made elsewhere and hands back the payload of the answer
    /// as it came: one exchange in which a length and a payload follow an
    /// `OK`.
    fn call_raw_cmd(&mut self, cmd: &[u8]) -> (r: Result<Vec<u8>, Error>)
        ensures
            exchanged(Self::law(), *old(self), cmd@, None, r, *final(self)),
            r matches Ok(payload) ==> possible_payload(None, payload@),
    {
        self.exchange(cmd, None)
    }
}

} // verus!
