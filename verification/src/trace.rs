//! The trace session: holding a process under trace and reading or writing
//! its memory word by word.
//!
//! This module decides; it does not act. An operation on a [`TraceSession`]
//! either ends at once or hands back a [`Request`] for the operating system
//! together with an [`Exchange`], which takes the system's reply and says what
//! comes next. A session is attached only between a granted attach request
//! and a granted detach request, and every request that the system refuses
//! while the target is attached is followed by an attempt to detach.

use vstd::prelude::*;

verus! {

/// A request to the operating system about the target process.
#[derive(Clone, Copy, Debug, PartialEq, Eq, Structural)]
pub enum Request {
    /// Put the target under trace.
    Attach,
    /// Block until the target reports that it has stopped.
    Wait,
    /// Read the word at this address.
    Peek(usize),
    /// Write `value` at `address`.
    Poke { address: usize, value: usize },
    /// Release the target.
    Detach,
}

/// Why an operation on a trace session failed.
///
/// The first three are mistakes of the caller. The others carry the error
/// code of the request that the operating system refused; a refused attach
/// and a failed wait are the two ways in which an attach fails.
#[derive(Clone, Copy, Debug, PartialEq, Eq, Structural)]
pub enum TraceError {
    /// Attach on a session that was attached; it has been detached.
    DoubleAttach,
    /// Detach on a session that was not attached.
    DoubleDetach,
    /// Peek or poke on a session that was not attached.
    NotAttached,
    /// The attach request was refused.
    AttachFailed(i32),
    /// The target did not report that it stopped; it has been detached.
    WaitFailed(i32),
    /// The word could not be read; the target has been detached.
    PeekFailed(i32),
    /// The word could not be written; the target has been detached.
    PokeFailed(i32),
    /// The detach request was refused; the target is still attached.
    DetachFailed(i32),
}

/// Whether the target is under trace.
#[derive(Clone, Copy, Debug, PartialEq, Eq, Structural)]
pub enum TraceState {
    Detached,
    Attached,
}

/// The request whose reply is awaited.
#[derive(Clone, Copy, Debug, PartialEq, Eq, Structural)]
pub enum Awaited {
    Attach,
    Wait,
    Peek,
    Poke,
    /// A detach, after which `Some` error is reported, or success.
    Detach(Option<TraceError>),
}

/// What an operation has come to.
#[derive(Clone, Copy, Debug, PartialEq, Eq, Structural)]
pub enum Effect {
    /// This request is to be made, and its reply handed back.
    Perform(Request),
    /// The operation succeeded.
    Done,
    /// The peek succeeded and read this word.
    Read(usize),
    /// The operation failed.
    Failed(TraceError),
}

/// A trace session as a state machine: between operations nothing is
/// awaited; within one, the reply to the last request is.
pub struct TraceModel {
    pub state: TraceState,
    pub awaited: Option<Awaited>,
}

impl TraceModel {
    /// A session between two operations.
    pub open spec fn idle(state: TraceState) -> TraceModel {
        TraceModel { state, awaited: None }
    }

    /// A session that awaits the reply to a request.
    pub open spec fn waiting(state: TraceState, awaited: Awaited) -> TraceModel {
        TraceModel { state, awaited: Some(awaited) }
    }

    /// Attach: an attached session is detached first, and the attempt will be
    /// reported as a mistake; a detached one asks the system to attach.
    pub open spec fn attach(self) -> (TraceModel, Request) {
        match self.state {
            TraceState::Attached => (
                Self::waiting(self.state, Awaited::Detach(Some(TraceError::DoubleAttach))),
                Request::Detach,
            ),
            TraceState::Detached => (Self::waiting(self.state, Awaited::Attach), Request::Attach),
        }
    }

    /// Peek: refused unless attached.
    pub open spec fn peek(self, address: usize) -> Result<(TraceModel, Request), TraceError> {
        match self.state {
            TraceState::Detached => Err(TraceError::NotAttached),
            TraceState::Attached => Ok(
                (Self::waiting(self.state, Awaited::Peek), Request::Peek(address)),
            ),
        }
    }

    /// Poke: refused unless attached.
    pub open spec fn poke(self, address: usize, value: usize) -> Result<
        (TraceModel, Request),
        TraceError,
    > {
        match self.state {
            TraceState::Detached => Err(TraceError::NotAttached),
            TraceState::Attached => Ok(
                (Self::waiting(self.state, Awaited::Poke), Request::Poke { address, value }),
            ),
        }
    }

    /// Detach: refused unless attached.
    pub open spec fn detach(self) -> Result<(TraceModel, Request), TraceError> {
        match self.state {
            TraceState::Detached => Err(TraceError::DoubleDetach),
            TraceState::Attached => Ok(
                (Self::waiting(self.state, Awaited::Detach(None)), Request::Detach),
            ),
        }
    }

    /// A request that was refused while the target may be attached: detach,
    /// then report `error`.
    pub open spec fn give_up(self, error: TraceError) -> (TraceModel, Effect) {
        (
            Self::waiting(self.state, Awaited::Detach(Some(error))),
            Effect::Perform(Request::Detach),
        )
    }

    /// The reply to the awaited request: `Ok` with the word read (of no
    /// meaning but for a peek), or `Err` with the system's error code.
    ///
    /// A granted attach is followed by the wait, and the session counts as
    /// attached from then on. A refused attach ends the operation with no
    /// detach. Any other refusal but that of a detach is followed by a
    /// detach, after which it is reported. A granted detach leaves the
    /// session detached; a refused one leaves it as it was. A reply that
    /// nothing awaits changes nothing.
    pub open spec fn resume(self, reply: Result<usize, i32>) -> (TraceModel, Effect) {
        match self.awaited {
            None => (self, Effect::Done),
            Some(Awaited::Attach) => match reply {
                Ok(_) => (
                    Self::waiting(TraceState::Attached, Awaited::Wait),
                    Effect::Perform(Request::Wait),
                ),
                Err(code) => (
                    Self::idle(self.state),
                    Effect::Failed(TraceError::AttachFailed(code)),
                ),
            },
            Some(Awaited::Wait) => match reply {
                Ok(_) => (Self::idle(self.state), Effect::Done),
                Err(code) => self.give_up(TraceError::WaitFailed(code)),
            },
            Some(Awaited::Peek) => match reply {
                Ok(word) => (Self::idle(self.state), Effect::Read(word)),
                Err(code) => self.give_up(TraceError::PeekFailed(code)),
            },
            Some(Awaited::Poke) => match reply {
                Ok(_) => (Self::idle(self.state), Effect::Done),
                Err(code) => self.give_up(TraceError::PokeFailed(code)),
            },
            Some(Awaited::Detach(after)) => match reply {
                Ok(_) => (
                    Self::idle(TraceState::Detached),
                    match after {
                        None => Effect::Done,
                        Some(error) => Effect::Failed(error),
                    },
                ),
                Err(code) => (
                    Self::idle(self.state),
                    Effect::Failed(TraceError::DetachFailed(code)),
                ),
            },
        }
    }
}

/// What can happen to a session: an operation is begun, or the reply to a
/// request comes in.
pub enum Event {
    Attach,
    Peek(usize),
    Poke(usize, usize),
    Detach,
    Reply(Result<usize, i32>),
}

impl TraceModel {
    /// The session after `event`, and the request that it makes of the
    /// operating system, if any.
    pub open spec fn after(self, event: Event) -> (TraceModel, Option<Request>) {
        match event {
            Event::Attach => (self.attach().0, Some(self.attach().1)),
            Event::Peek(address) => match self.peek(address) {
                Ok((model, request)) => (model, Some(request)),
                Err(_) => (self, None),
            },
            Event::Poke(address, value) => match self.poke(address, value) {
                Ok((model, request)) => (model, Some(request)),
                Err(_) => (self, None),
            },
            Event::Detach => match self.detach() {
                Ok((model, request)) => (model, Some(request)),
                Err(_) => (self, None),
            },
            Event::Reply(reply) => (
                self.resume(reply).0,
                match self.resume(reply).1 {
                    Effect::Perform(request) => Some(request),
                    _ => None,
                },
            ),
        }
    }
}

/// Whether the target is under trace after `event`, as the operating system
/// has it: a granted attach request puts it there, a granted detach request
/// releases it, and nothing else changes it.
pub open spec fn traced_after(traced: bool, awaited: Option<Awaited>, event: Event) -> bool {
    match (awaited, event) {
        (Some(Awaited::Attach), Event::Reply(Ok(_))) => true,
        (Some(Awaited::Detach(_)), Event::Reply(Ok(_))) => false,
        _ => traced,
    }
}

/// The session, and whether the target is under trace, after `events` have
/// happened to a new session on a target that was not.
pub open spec fn history(events: Seq<Event>) -> (TraceModel, bool)
    decreases events.len(),
{
    if events.len() == 0 {
        (TraceModel::idle(TraceState::Detached), false)
    } else {
        let (model, traced) = history(events.drop_last());
        (model.after(events.last()).0, traced_after(traced, model.awaited, events.last()))
    }
}

/// Attach and detach alternate.
///
/// Whatever has happened, the session is attached exactly when the target is
/// under trace. So an attach request is made only of a target that is not
/// under trace: between two granted attach requests lies a granted detach
/// request. And a peek or a poke on a detached session makes no request and
/// leaves the session as it is.
pub proof fn lemma_attach_alternates(events: Seq<Event>, next: Event)
    ensures
        ({
            let (model, traced) = history(events);
            &&& model.state == TraceState::Attached <==> traced
            &&& model.after(next).1 == Some(Request::Attach) ==> !traced
            &&& model.state == TraceState::Detached && (next is Peek || next is Poke)
                ==> model.after(next) == (model, None::<Request>)
        }),
    decreases events.len(),
{
    if events.len() > 0 {
        lemma_attach_alternates(events.drop_last(), events.last());
    }
}

/// A trace session between two operations.
#[derive(Debug)]
pub struct TraceSession {
    state: TraceState,
}

/// A trace session in the middle of an operation: a request has gone out and
/// its reply is awaited.
#[derive(Debug)]
pub struct Exchange {
    state: TraceState,
    awaited: Awaited,
}

/// How an operation begins: with a request, or not at all.
#[derive(Debug)]
pub enum Start {
    /// Make `request` and hand the reply to the exchange.
    Perform(Exchange, Request),
    /// The session is in no state for the operation, and stays as it was.
    Refused(TraceSession, TraceError),
}

/// What a reply has brought an operation to, with the session as it now stands.
#[derive(Debug)]
pub enum Step {
    /// Make `request` and hand the reply to the exchange.
    Perform(Exchange, Request),
    /// The operation succeeded.
    Done(TraceSession),
    /// The peek succeeded and read this word.
    Read(TraceSession, usize),
    /// The operation failed.
    Failed(TraceSession, TraceError),
}

impl View for TraceSession {
    type V = TraceModel;

    open spec fn view(&self) -> TraceModel {
        TraceModel::idle(self.spec_state())
    }
}

impl View for Exchange {
    type V = TraceModel;

    open spec fn view(&self) -> TraceModel {
        TraceModel::waiting(self.spec_state(), self.spec_awaited())
    }
}

impl View for Start {
    type V = Result<(TraceModel, Request), TraceError>;

    open spec fn view(&self) -> Result<(TraceModel, Request), TraceError> {
        match *self {
            Start::Perform(exchange, request) => Ok((exchange@, request)),
            Start::Refused(_, error) => Err(error),
        }
    }
}

impl View for Step {
    type V = (TraceModel, Effect);

    open spec fn view(&self) -> (TraceModel, Effect) {
        match *self {
            Step::Perform(exchange, request) => (exchange@, Effect::Perform(request)),
            Step::Done(session) => (session@, Effect::Done),
            Step::Read(session, word) => (session@, Effect::Read(word)),
            Step::Failed(session, error) => (session@, Effect::Failed(error)),
        }
    }
}

impl TraceSession {
    pub closed spec fn spec_state(&self) -> TraceState {
        self.state
    }

    /// A session on a target that is not under trace.
    pub fn new() -> (session: TraceSession)
        ensures
            session@ == TraceModel::idle(TraceState::Detached),
    {
        TraceSession { state: TraceState::Detached }
    }

    #[verifier::when_used_as_spec(spec_state)]
    pub fn state(&self) -> (state: TraceState)
        ensures
            state == self.spec_state(),
    {
        self.state
    }

    /// Starts an attach, which always begins with a request.
    ///
    /// The attach request goes out only from a detached session. From an
    /// attached one a detach request goes out, and the operation will fail.
    pub fn attach(self) -> (start: (Exchange, Request))
        ensures
            (start.0@, start.1) == self@.attach(),
            start.1 == Request::Attach <==> self@.state == TraceState::Detached,
    {
        match self.state {
            TraceState::Attached => (
                Exchange {
                    state: self.state,
                    awaited: Awaited::Detach(Some(TraceError::DoubleAttach)),
                },
                Request::Detach,
            ),
            TraceState::Detached => (
                Exchange { state: self.state, awaited: Awaited::Attach },
                Request::Attach,
            ),
        }
    }

    /// Starts a peek at `address`.
    ///
    /// On a detached session it fails without a request.
    pub fn peek(self, address: usize) -> (start: Start)
        ensures
            start@ == self@.peek(address),
            start matches Start::Refused(session, _) ==> session@ == self@,
    {
        match self.state {
            TraceState::Detached => Start::Refused(self, TraceError::NotAttached),
            TraceState::Attached => Start::Perform(
                Exchange { state: self.state, awaited: Awaited::Peek },
                Request::Peek(address),
            ),
        }
    }

    /// Starts a poke of `value` at `address`.
    ///
    /// On a detached session it fails without a request.
    pub fn poke(self, address: usize, value: usize) -> (start: Start)
        ensures
            start@ == self@.poke(address, value),
            start matches Start::Refused(session, _) ==> session@ == self@,
    {
        match self.state {
            TraceState::Detached => Start::Refused(self, TraceError::NotAttached),
            TraceState::Attached => Start::Perform(
                Exchange { state: self.state, awaited: Awaited::Poke },
                Request::Poke { address, value },
            ),
        }
    }

    /// Starts a detach.
    ///
    /// On a detached session it fails without a request.
    pub fn detach(self) -> (start: Start)
        ensures
            start@ == self@.detach(),
            start matches Start::Refused(session, _) ==> session@ == self@,
    {
        match self.state {
            TraceState::Detached => Start::Refused(self, TraceError::DoubleDetach),
            TraceState::Attached => Start::Perform(
                Exchange { state: self.state, awaited: Awaited::Detach(None) },
                Request::Detach,
            ),
        }
    }
}

impl Exchange {
    pub closed spec fn spec_state(&self) -> TraceState {
        self.state
    }

    pub closed spec fn spec_awaited(&self) -> Awaited {
        self.awaited
    }

    fn give_up(self, error: TraceError) -> (step: Step)
        ensures
            step@ == self@.give_up(error),
    {
        Step::Perform(
            Exchange { state: self.state, awaited: Awaited::Detach(Some(error)) },
            Request::Detach,
        )
    }

    /// Takes the reply to the request that went out last.
    ///
    /// `Ok` holds the word read, which only a peek gives a meaning to; `Err`
    /// holds the system's error code. The session becomes attached only by a
    /// granted attach and detached only by a granted detach, and no reply
    /// leads to another attach request.
    pub fn resume(self, reply: Result<usize, i32>) -> (step: Step)
        ensures
            step@ == self@.resume(reply),
            step@.1 != Effect::Perform(Request::Attach),
    {
        match self.awaited {
            Awaited::Attach => match reply {
                Ok(_) => Step::Perform(
                    Exchange { state: TraceState::Attached, awaited: Awaited::Wait },
                    Request::Wait,
                ),
                Err(code) => Step::Failed(
                    TraceSession { state: self.state },
                    TraceError::AttachFailed(code),
                ),
            },
            Awaited::Wait => match reply {
                Ok(_) => Step::Done(TraceSession { state: self.state }),
                Err(code) => self.give_up(TraceError::WaitFailed(code)),
            },
            Awaited::Peek => match reply {
                Ok(word) => Step::Read(TraceSession { state: self.state }, word),
                Err(code) => self.give_up(TraceError::PeekFailed(code)),
            },
            Awaited::Poke => match reply {
                Ok(_) => Step::Done(TraceSession { state: self.state }),
                Err(code) => self.give_up(TraceError::PokeFailed(code)),
            },
            Awaited::Detach(after) => match reply {
                Ok(_) => {
                    let session = TraceSession { state: TraceState::Detached };
                    match after {
                        None => Step::Done(session),
                        Some(error) => Step::Failed(session, error),
                    }
                },
                Err(code) => Step::Failed(
                    TraceSession { state: self.state },
                    TraceError::DetachFailed(code),
                ),
            },
        }
    }
}

} // verus!
