//! One pass over the target: attach once, read a word at each of a list of
//! addresses or write one word, detach once.
//!
//! The target stands still for as long as it is attached, so a pass is the
//! only place where the session is attached, and it never ends with the
//! target attached unless the operating system refused to let go of it.
//!
//! A pass is driven from outside: it hands out a [`Request`], takes the reply
//! in [`Pass::resume`], and either hands out the next request or ends.

use crate::trace::{
    Awaited, Effect, Exchange, Request, Start, Step, TraceError, TraceModel, TraceSession,
    TraceState,
};
use vstd::prelude::*;

verus! {

/// Which operation of the pass is under way.
#[derive(Clone, Copy, Debug, PartialEq, Eq, Structural)]
pub enum Stage {
    Attaching,
    Peeking,
    Poking,
    Detaching,
}

/// What a pass is for.
pub enum JobModel {
    /// Read the word at each of `addresses`; `words` are those read so far.
    Observe { addresses: Seq<usize>, words: Seq<usize> },
    /// Write `value` at `address`.
    Write { address: usize, value: usize },
}

/// What a pass has come to.
pub enum PassEffect {
    /// This request is to be made, and its reply handed back.
    Perform(Request),
    /// The pass is over; these are the words at the addresses, in their order.
    Observed(Seq<usize>),
    /// The pass is over; the word has been written.
    Written,
    /// The pass is over and failed.
    Failed(TraceError),
}

/// A pass as a state machine.
pub struct PassModel {
    pub trace: TraceModel,
    pub stage: Stage,
    pub job: JobModel,
}

impl PassModel {
    /// A pass starts by attaching a session that is detached.
    pub open spec fn begin(job: JobModel) -> (PassModel, Request) {
        let (trace, request) = TraceModel::idle(TraceState::Detached).attach();
        (PassModel { trace, stage: Stage::Attaching, job }, request)
    }

    /// The session awaits the reply to a request made for `stage`: the
    /// request itself, or the detach that follows its refusal.
    pub open spec fn in_flight(self, awaited: Awaited) -> bool {
        &&& self.trace.state == TraceState::Attached
        &&& self.trace.awaited matches Some(a)
        &&& a == awaited || (a matches Awaited::Detach(Some(error)) && match awaited {
            Awaited::Wait => error is WaitFailed,
            Awaited::Peek => error is PeekFailed,
            Awaited::Poke => error is PokeFailed,
            _ => false,
        })
    }

    /// The stage fits the job and what the session awaits, and an observing
    /// pass has at least one address and no more words than addresses.
    pub open spec fn well_formed(self) -> bool {
        &&& self.job matches JobModel::Observe { addresses, words } ==> addresses.len() > 0
            && words.len() <= addresses.len()
        &&& match self.stage {
            Stage::Attaching => {
                &&& self.trace == TraceModel::waiting(TraceState::Detached, Awaited::Attach)
                    || self.in_flight(Awaited::Wait)
                &&& self.job matches JobModel::Observe { addresses, words } ==> words.len() == 0
            },
            Stage::Peeking => {
                &&& self.in_flight(Awaited::Peek)
                &&& self.job matches JobModel::Observe { addresses, words }
                &&& words.len() < addresses.len()
            },
            Stage::Poking => {
                &&& self.in_flight(Awaited::Poke)
                &&& self.job is Write
            },
            Stage::Detaching => {
                &&& self.trace == TraceModel::waiting(TraceState::Attached, Awaited::Detach(None))
                &&& self.job matches JobModel::Observe { addresses, words } ==> words.len()
                    == addresses.len()
            },
        }
    }

    /// The pass once the next operation, for `stage`, has been started.
    pub open spec fn launch(
        self,
        stage: Stage,
        start: Result<(TraceModel, Request), TraceError>,
    ) -> (PassModel, PassEffect) {
        match start {
            Ok((trace, request)) => (
                PassModel { trace, stage, ..self },
                PassEffect::Perform(request),
            ),
            Err(error) => (self, PassEffect::Failed(error)),
        }
    }

    /// The pass once the operation under way has succeeded and left the
    /// session as `trace`; `word` is what a peek read.
    pub open spec fn advance(self, trace: TraceModel, word: usize) -> (PassModel, PassEffect) {
        let now = PassModel { trace, ..self };
        match (self.stage, self.job) {
            (Stage::Attaching, JobModel::Observe { addresses, words }) => now.launch(
                Stage::Peeking,
                trace.peek(addresses[0]),
            ),
            (Stage::Attaching, JobModel::Write { address, value }) => now.launch(
                Stage::Poking,
                trace.poke(address, value),
            ),
            (Stage::Peeking, JobModel::Observe { addresses, words }) => {
                let read = words.push(word);
                let next = PassModel { job: JobModel::Observe { addresses, words: read }, ..now };
                if read.len() < addresses.len() {
                    next.launch(Stage::Peeking, trace.peek(addresses[read.len() as int]))
                } else {
                    next.launch(Stage::Detaching, trace.detach())
                }
            },
            (Stage::Peeking, JobModel::Write { .. }) | (Stage::Poking, _) => now.launch(
                Stage::Detaching,
                trace.detach(),
            ),
            (Stage::Detaching, JobModel::Observe { addresses, words }) => (
                now,
                PassEffect::Observed(words),
            ),
            (Stage::Detaching, JobModel::Write { .. }) => (now, PassEffect::Written),
        }
    }

    /// The pass after the reply to its last request.
    ///
    /// A request that the session still has to make, and a failure, pass
    /// through; a success moves the pass on to its next operation.
    pub open spec fn resume(self, reply: Result<usize, i32>) -> (PassModel, PassEffect) {
        let (trace, effect) = self.trace.resume(reply);
        match effect {
            Effect::Perform(request) => (
                PassModel { trace, ..self },
                PassEffect::Perform(request),
            ),
            Effect::Failed(error) => (PassModel { trace, ..self }, PassEffect::Failed(error)),
            Effect::Done => self.advance(trace, 0),
            Effect::Read(word) => self.advance(trace, word),
        }
    }
}

/// The discipline of a pass, whatever the operating system replies.
///
/// A pass in order stays in order for as long as it goes on. It asks for no
/// second attach. It never makes a mistake of protocol: it neither attaches
/// twice nor peeks, pokes or detaches while detached. When it ends, the
/// session is detached, unless the system refused the detach request. And an
/// observing pass that succeeds has read one word for each address.
pub proof fn lemma_pass_discipline(pass: PassModel, reply: Result<usize, i32>)
    requires
        pass.well_formed(),
    ensures
        ({
            let (next, effect) = pass.resume(reply);
            &&& next.job is Write <==> pass.job is Write
            &&& effect is Perform ==> next.well_formed()
            &&& effect != PassEffect::Perform(Request::Attach)
            &&& effect matches PassEffect::Failed(error) ==> error != TraceError::DoubleAttach
                && error != TraceError::DoubleDetach && error != TraceError::NotAttached
            &&& effect !is Perform ==> next.trace.state == TraceState::Detached || (
            effect matches PassEffect::Failed(error) && error is DetachFailed)
            &&& effect matches PassEffect::Observed(words) ==> pass.job matches JobModel::Observe {
                addresses,
                ..
            } && words.len() == addresses.len()
            &&& effect is Written ==> pass.job is Write
        }),
{
}

/// The reply of an operating system that grants `request`, over a memory
/// that holds `memory(address)` at each address.
pub open spec fn granted(memory: spec_fn(usize) -> usize, request: Request) -> Result<
    usize,
    i32,
> {
    match request {
        Request::Peek(address) => Ok(memory(address)),
        _ => Ok(0),
    }
}

/// The requests that `pass` goes on to make after `request`, and what it
/// comes to, when up to `patience` requests are granted one after the other.
pub open spec fn run_granted(
    pass: PassModel,
    request: Request,
    memory: spec_fn(usize) -> usize,
    patience: nat,
) -> (Seq<Request>, PassEffect)
    decreases patience,
{
    if patience == 0 {
        (Seq::empty(), PassEffect::Perform(request))
    } else {
        let (next, effect) = pass.resume(granted(memory, request));
        match effect {
            PassEffect::Perform(following) => {
                let (requests, end) = run_granted(next, following, memory, (patience - 1) as nat);
                (seq![following] + requests, end)
            },
            _ => (Seq::empty(), effect),
        }
    }
}

/// The peeks at each of `addresses`, in their order.
pub open spec fn peeks(addresses: Seq<usize>) -> Seq<Request> {
    addresses.map_values(|address: usize| Request::Peek(address))
}

/// From a granted peek on, an observing pass peeks at each address that is
/// left, detaches, and ends with the words that the memory holds.
proof fn lemma_peeks_granted(
    pass: PassModel,
    memory: spec_fn(usize) -> usize,
    addresses: Seq<usize>,
    done: int,
    patience: nat,
)
    requires
        0 <= done < addresses.len(),
        pass.stage == Stage::Peeking,
        pass.trace == TraceModel::waiting(TraceState::Attached, Awaited::Peek),
        pass.job == (JobModel::Observe {
            addresses,
            words: addresses.take(done).map_values(memory),
        }),
        patience >= addresses.len() - done + 1,
    ensures
        run_granted(pass, Request::Peek(addresses[done]), memory, patience) == (
            peeks(addresses.skip(done + 1)) + seq![Request::Detach],
            PassEffect::Observed(addresses.map_values(memory)),
        ),
    decreases addresses.len() - done,
{
    let (next, effect) = pass.resume(granted(memory, Request::Peek(addresses[done])));
    let read = addresses.take(done).map_values(memory).push(memory(addresses[done]));
    assert(read =~= addresses.take(done + 1).map_values(memory));
    if done + 1 < addresses.len() {
        lemma_peeks_granted(next, memory, addresses, done + 1, (patience - 1) as nat);
        assert(seq![Request::Peek(addresses[done + 1])] + (peeks(addresses.skip(done + 2))
            + seq![Request::Detach]) =~= peeks(addresses.skip(done + 1)) + seq![Request::Detach]);
    } else {
        assert(addresses.take(done + 1) =~= addresses);
        assert(effect == PassEffect::Perform(Request::Detach));
        let (last, end) = next.resume(granted(memory, Request::Detach));
        assert(end == PassEffect::Observed(addresses.map_values(memory)));
        reveal_with_fuel(run_granted, 3);
        assert(seq![Request::Detach] + Seq::<Request>::empty() =~= peeks(
            addresses.skip(done + 1),
        ) + seq![Request::Detach]);
    }
}

/// An observing pass whose requests are all granted attaches once, waits for
/// the target to stop, peeks once at each address in turn and detaches once;
/// it ends with the word that the memory holds at each address.
pub proof fn lemma_observe_granted(
    memory: spec_fn(usize) -> usize,
    addresses: Seq<usize>,
    patience: nat,
)
    requires
        addresses.len() > 0,
        patience >= addresses.len() + 3,
    ensures
        ({
            let (pass, first) = PassModel::begin(
                JobModel::Observe { addresses, words: Seq::empty() },
            );
            &&& first == Request::Attach
            &&& run_granted(pass, first, memory, patience) == (
                seq![Request::Wait] + peeks(addresses) + seq![Request::Detach],
                PassEffect::Observed(addresses.map_values(memory)),
            )
        }),
{
    let (pass, first) = PassModel::begin(JobModel::Observe { addresses, words: Seq::empty() });
    let (waiting, _) = pass.resume(granted(memory, first));
    let (peeking, _) = waiting.resume(granted(memory, Request::Wait));
    assert(addresses.take(0).map_values(memory) =~= Seq::<usize>::empty());
    lemma_peeks_granted(peeking, memory, addresses, 0, (patience - 2) as nat);
    reveal_with_fuel(run_granted, 3);
    assert(seq![Request::Wait] + (seq![Request::Peek(addresses[0])] + (peeks(addresses.skip(1))
        + seq![Request::Detach])) =~= seq![Request::Wait] + peeks(addresses) + seq![
        Request::Detach,
    ]);
}

/// A writing pass whose requests are all granted attaches once, waits for the
/// target to stop, pokes the value at the address once and detaches once.
pub proof fn lemma_write_granted(
    memory: spec_fn(usize) -> usize,
    address: usize,
    value: usize,
    patience: nat,
)
    requires
        patience >= 4,
    ensures
        ({
            let (pass, first) = PassModel::begin(JobModel::Write { address, value });
            &&& first == Request::Attach
            &&& run_granted(pass, first, memory, patience) == (
                seq![Request::Wait, Request::Poke { address, value }, Request::Detach],
                PassEffect::Written,
            )
        }),
{
    reveal_with_fuel(run_granted, 5);
    let (pass, first) = PassModel::begin(JobModel::Write { address, value });
    let (requests, _) = run_granted(pass, first, memory, patience);
    assert(requests =~= seq![Request::Wait, Request::Poke { address, value }, Request::Detach]);
}

/// What a pass is for, with the words read so far.
#[derive(Debug)]
enum Job {
    Observe { addresses: Vec<usize>, words: Vec<usize> },
    Write { address: usize, value: usize },
}

impl View for Job {
    type V = JobModel;

    closed spec fn view(&self) -> JobModel {
        match *self {
            Job::Observe { addresses, words } => JobModel::Observe {
                addresses: addresses@,
                words: words@,
            },
            Job::Write { address, value } => JobModel::Write { address, value },
        }
    }
}

/// A pass that has made a request and awaits the reply.
#[derive(Debug)]
pub struct Pass {
    exchange: Exchange,
    stage: Stage,
    job: Job,
}

/// What a pass has come to.
#[derive(Debug)]
pub enum Turn {
    /// Make `request` and hand the reply to the pass.
    Perform(Pass, Request),
    /// The pass is over; these are the words at the addresses, in their order.
    Observed(Vec<usize>),
    /// The pass is over; the word has been written.
    Written,
    /// The pass is over and failed.
    Failed(TraceError),
}

impl View for Pass {
    type V = PassModel;

    closed spec fn view(&self) -> PassModel {
        PassModel { trace: self.exchange@, stage: self.stage, job: self.job@ }
    }
}

impl View for Turn {
    type V = PassEffect;

    open spec fn view(&self) -> PassEffect {
        match *self {
            Turn::Perform(_, request) => PassEffect::Perform(request),
            Turn::Observed(words) => PassEffect::Observed(words@),
            Turn::Written => PassEffect::Written,
            Turn::Failed(error) => PassEffect::Failed(error),
        }
    }
}

impl Pass {
    #[verifier::type_invariant]
    spec fn in_order(self) -> bool {
        self@.well_formed()
    }

    /// Begins a pass that reads the word at each of `addresses`.
    ///
    /// The first request is the attach.
    pub fn observe(addresses: Vec<usize>) -> (begun: (Pass, Request))
        requires
            addresses@.len() > 0,
        ensures
            (begun.0@, begun.1) == PassModel::begin(
                JobModel::Observe { addresses: addresses@, words: Seq::empty() },
            ),
            begun.0@.well_formed(),
            begun.1 == Request::Attach,
    {
        let (exchange, request) = TraceSession::new().attach();
        let job = Job::Observe { addresses, words: Vec::new() };
        (Pass { exchange, stage: Stage::Attaching, job }, request)
    }

    /// Begins a pass that writes `value` at `address`.
    ///
    /// The first request is the attach.
    pub fn write(address: usize, value: usize) -> (begun: (Pass, Request))
        ensures
            (begun.0@, begun.1) == PassModel::begin(JobModel::Write { address, value }),
            begun.0@.well_formed(),
            begun.1 == Request::Attach,
    {
        let (exchange, request) = TraceSession::new().attach();
        (Pass { exchange, stage: Stage::Attaching, job: Job::Write { address, value } }, request)
    }

    fn launch(stage: Stage, job: Job, start: Start, Ghost(before): Ghost<PassModel>) -> (turn: Turn)
        requires
            before.job == job@,
            match start {
                Start::Perform(exchange, _) => (PassModel {
                    trace: exchange@,
                    stage,
                    job: job@,
                }).well_formed(),
                Start::Refused(..) => true,
            },
        ensures
            turn@ == before.launch(stage, start@).1,
            turn matches Turn::Perform(pass, _) ==> pass@ == before.launch(stage, start@).0,
    {
        match start {
            Start::Perform(exchange, request) => Turn::Perform(
                Pass { exchange, stage, job },
                request,
            ),
            Start::Refused(_, error) => Turn::Failed(error),
        }
    }

    fn advance(stage: Stage, job: Job, session: TraceSession, word: usize, Ghost(
        before,
    ): Ghost<PassModel>) -> (turn: Turn)
        requires
            before.well_formed(),
            before.stage == stage,
            before.job == job@,
            before.advance(session@, word).1 is Perform ==> before.advance(
                session@,
                word,
            ).0.well_formed(),
        ensures
            turn@ == before.advance(session@, word).1,
            turn matches Turn::Perform(pass, _) ==> pass@ == before.advance(session@, word).0,
    {
        let ghost now = PassModel { trace: session@, ..before };
        match job {
            Job::Observe { addresses, mut words } => match stage {
                Stage::Attaching => {
                    let start = session.peek(addresses[0]);
                    Self::launch(Stage::Peeking, Job::Observe { addresses, words }, start, Ghost(now))
                },
                Stage::Peeking => {
                    words.push(word);
                    let ghost next = PassModel {
                        job: JobModel::Observe { addresses: addresses@, words: words@ },
                        ..now
                    };
                    if words.len() < addresses.len() {
                        let start = session.peek(addresses[words.len()]);
                        Self::launch(
                            Stage::Peeking,
                            Job::Observe { addresses, words },
                            start,
                            Ghost(next),
                        )
                    } else {
                        let start = session.detach();
                        Self::launch(
                            Stage::Detaching,
                            Job::Observe { addresses, words },
                            start,
                            Ghost(next),
                        )
                    }
                },
                Stage::Poking => {
                    let start = session.detach();
                    Self::launch(
                        Stage::Detaching,
                        Job::Observe { addresses, words },
                        start,
                        Ghost(now),
                    )
                },
                Stage::Detaching => Turn::Observed(words),
            },
            Job::Write { address, value } => match stage {
                Stage::Attaching => {
                    let start = session.poke(address, value);
                    Self::launch(Stage::Poking, Job::Write { address, value }, start, Ghost(now))
                },
                Stage::Peeking | Stage::Poking => {
                    let start = session.detach();
                    Self::launch(Stage::Detaching, Job::Write { address, value }, start, Ghost(now))
                },
                Stage::Detaching => Turn::Written,
            },
        }
    }

    /// Takes the reply to the request that went out last.
    ///
    /// `Ok` holds the word read, which only a peek gives a meaning to; `Err`
    /// holds the system's error code. The pass goes on with the next request
    /// or ends: with the words read, one for each address in their order;
    /// with the word written; or with the failure of the request that the
    /// system refused. It asks for no second attach and makes no mistake of
    /// protocol.
    pub fn resume(self, reply: Result<usize, i32>) -> (turn: Turn)
        ensures
            self@.well_formed(),
            turn@ == self@.resume(reply).1,
            turn matches Turn::Perform(pass, _) ==> pass@ == self@.resume(reply).0
                && pass@.well_formed(),
            turn@ != PassEffect::Perform(Request::Attach),
            turn matches Turn::Failed(error) ==> error != TraceError::DoubleAttach && error
                != TraceError::DoubleDetach && error != TraceError::NotAttached,
    {
        proof {
            use_type_invariant(&self);
            lemma_pass_discipline(self@, reply);
        }
        let ghost before = self@;
        let Pass { exchange, stage, job } = self;
        match exchange.resume(reply) {
            Step::Perform(exchange, request) => Turn::Perform(
                Pass { exchange, stage, job },
                request,
            ),
            Step::Failed(_, error) => Turn::Failed(error),
            Step::Done(session) => Self::advance(stage, job, session, 0, Ghost(before)),
            Step::Read(session, word) => Self::advance(stage, job, session, word, Ghost(before)),
        }
    }
}

} // verus!
