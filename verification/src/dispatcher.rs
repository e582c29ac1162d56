//! The dispatcher: the single owner of a pool's access discipline. It takes
//! command envelopes one at a time, checks out a connection, runs the
//! operation that the envelope asks for and resolves the reply slot.
//!
//! The decisions are a state machine over plain values, [`step`], for a
//! driver that has to wait for envelopes and connections. [`run`] drives the
//! same machine over a queue of envelopes and a [`Pool`].

use crate::envelope::{reject, resolve, Answer, BaseMapperEnum, Delivery, Request, Served};
use crate::error::MapperError;
use crate::mapper::{
    create_outcome, delete_outcome, is_listing, read_outcome, refines, table_after_create,
    table_after_delete, table_after_update, update_outcome, BaseMapper,
};
use crate::pool::{Pool, PoolView};
use vstd::prelude::*;

verus! {

/// Where the dispatcher stands in its loop.
#[derive(Clone, Copy, Debug, PartialEq, Eq, Structural)]
pub enum Phase {
    /// Waiting for the next envelope.
    Idle,
    /// An envelope is in hand and a connection has been asked for.
    Acquiring,
    /// An envelope is in hand and its operation runs on a connection.
    Executing,
    /// The pool is closed: what is still queued is answered with `PoolClosed`.
    Draining,
    /// The loop has ended.
    Stopped,
}

/// What the driver reports to the dispatcher.
#[derive(Clone, Copy, Debug, PartialEq, Eq, Structural)]
pub enum Event {
    /// The inbound channel delivered an envelope.
    Arrived,
    /// The inbound channel is closed for good and empty.
    InboundClosed,
    /// The pool handed out a connection.
    LeaseGranted,
    /// The pool handed out no connection.
    LeaseFailed(MapperError),
    /// The operation has run, the reply slot is resolved and the connection
    /// is back in the pool.
    Completed(Delivery),
}

/// What the driver has to do next.
#[derive(Clone, Copy, Debug, PartialEq, Eq, Structural)]
pub enum Action {
    /// Wait for the next envelope.
    AwaitEnvelope,
    /// Ask the pool for a connection.
    AcquireConnection,
    /// Run the operation of the envelope in hand, resolve its reply slot and
    /// hand the connection back.
    Execute,
    /// Resolve the reply slot of the envelope in hand with this error, then
    /// wait for the next envelope.
    Reject(MapperError),
    /// Leave the loop.
    Halt,
}

impl Phase {
    /// Whether an envelope is in hand whose reply slot is not yet resolved.
    pub open spec fn in_hand(self) -> bool {
        self == Phase::Acquiring || self == Phase::Executing
    }

    /// The number of connections that the dispatcher holds.
    pub open spec fn held(self) -> nat {
        if self == Phase::Executing {
            1
        } else {
            0
        }
    }

    /// What the driver is to do while nothing new has happened.
    pub open spec fn pending(self) -> Action {
        match self {
            Phase::Idle => Action::AwaitEnvelope,
            Phase::Acquiring => Action::AcquireConnection,
            Phase::Executing => Action::Execute,
            Phase::Draining => Action::AwaitEnvelope,
            Phase::Stopped => Action::Halt,
        }
    }
}

/// The phase after `event`. An event that the phase does not wait for
/// changes nothing.
pub open spec fn next_phase(phase: Phase, event: Event) -> Phase {
    match (phase, event) {
        (Phase::Idle, Event::Arrived) => Phase::Acquiring,
        (Phase::Idle, Event::InboundClosed) => Phase::Stopped,
        (Phase::Acquiring, Event::LeaseGranted) => Phase::Executing,
        (Phase::Acquiring, Event::LeaseFailed(e)) => if e.fatal() {
            Phase::Draining
        } else {
            Phase::Idle
        },
        (Phase::Executing, Event::Completed(_)) => Phase::Idle,
        (Phase::Draining, Event::InboundClosed) => Phase::Stopped,
        _ => phase,
    }
}

/// What the driver has to do after `event`.
pub open spec fn next_action(phase: Phase, event: Event) -> Action {
    match (phase, event) {
        (Phase::Idle, Event::Arrived) => Action::AcquireConnection,
        (Phase::Idle, Event::InboundClosed) => Action::Halt,
        (Phase::Acquiring, Event::LeaseGranted) => Action::Execute,
        (Phase::Acquiring, Event::LeaseFailed(e)) => Action::Reject(e),
        (Phase::Executing, Event::Completed(_)) => Action::AwaitEnvelope,
        (Phase::Draining, Event::Arrived) => Action::Reject(MapperError::PoolClosed),
        (Phase::Draining, Event::InboundClosed) => Action::Halt,
        _ => phase.pending(),
    }
}

/// Whether `event` makes the dispatcher resolve a reply slot.
pub open spec fn answers(phase: Phase, event: Event) -> bool {
    match (phase, event) {
        (Phase::Acquiring, Event::LeaseFailed(_)) => true,
        (Phase::Executing, Event::Completed(_)) => true,
        (Phase::Draining, Event::Arrived) => true,
        _ => false,
    }
}

/// Whether `event` makes the dispatcher take an envelope in.
pub open spec fn accepts(phase: Phase, event: Event) -> bool {
    match (phase, event) {
        (Phase::Idle, Event::Arrived) => true,
        (Phase::Draining, Event::Arrived) => true,
        _ => false,
    }
}

/// One decision of the dispatcher: from its phase and what happened to its
/// next phase and what to do.
pub fn step(phase: Phase, event: Event) -> (out: (Phase, Action))
    ensures
        out.0 == next_phase(phase, event),
        out.1 == next_action(phase, event),
{
    match phase {
        Phase::Idle => match event {
            Event::Arrived => (Phase::Acquiring, Action::AcquireConnection),
            Event::InboundClosed => (Phase::Stopped, Action::Halt),
            _ => (Phase::Idle, Action::AwaitEnvelope),
        },
        Phase::Acquiring => match event {
            Event::LeaseGranted => (Phase::Executing, Action::Execute),
            Event::LeaseFailed(e) => {
                if e.is_fatal() {
                    (Phase::Draining, Action::Reject(e))
                } else {
                    (Phase::Idle, Action::Reject(e))
                }
            },
            _ => (Phase::Acquiring, Action::AcquireConnection),
        },
        Phase::Executing => match event {
            Event::Completed(_) => (Phase::Idle, Action::AwaitEnvelope),
            _ => (Phase::Executing, Action::Execute),
        },
        Phase::Draining => match event {
            Event::Arrived => (Phase::Draining, Action::Reject(MapperError::PoolClosed)),
            Event::InboundClosed => (Phase::Stopped, Action::Halt),
            _ => (Phase::Draining, Action::AwaitEnvelope),
        },
        Phase::Stopped => (Phase::Stopped, Action::Halt),
    }
}

/// The dispatcher's place in its loop, kept between the events.
pub struct Dispatcher {
    phase: Phase,
}

impl View for Dispatcher {
    type V = Phase;

    closed spec fn view(&self) -> Phase {
        self.phase
    }
}

impl Dispatcher {
    /// A dispatcher that waits for its first envelope.
    pub fn new() -> (dispatcher: Self)
        ensures
            dispatcher@ == Phase::Idle,
    {
        Dispatcher { phase: Phase::Idle }
    }

    /// Where the dispatcher stands.
    pub fn phase(&self) -> (phase: Phase)
        ensures
            phase == self@,
    {
        self.phase
    }

    /// Takes note of `event` and says what to do next.
    pub fn on(&mut self, event: Event) -> (action: Action)
        ensures
            final(self)@ == next_phase(old(self)@, event),
            action == next_action(old(self)@, event),
    {
        let (phase, action) = step(self.phase, event);
        self.phase = phase;
        action
    }
}

/// `answer` is what `mapper` may answer to `request` on the table `before`,
/// and `after` is the table that it leaves.
pub open spec fn fulfils<I, T, M: BaseMapper<I, T>>(
    mapper: &M,
    before: Map<I, T>,
    request: Request<I, T>,
    answer: Answer<T>,
    after: Map<I, T>,
) -> bool {
    match request {
        Request::ReadDataList => {
            &&& after == before
            &&& answer matches Answer::Listing(r)
            &&& match r {
                Ok(list) => is_listing(before, |e: T| mapper.key_of(e), list),
                Err(e) => mapper.fallible() && e == MapperError::BackendError,
            }
        },
        Request::ReadDataById { id } => {
            &&& after == before
            &&& answer matches Answer::Single(r)
            &&& refines(mapper.fallible(), r, read_outcome(before, id))
        },
        Request::CreateData { data } => {
            let stored = mapper.as_stored(before, data);
            let key = mapper.key_of(stored);
            &&& answer matches Answer::Single(r)
            &&& refines(mapper.fallible(), r, create_outcome(before, key, stored))
            &&& after == if r is Ok {
                table_after_create(before, key, stored)
            } else {
                before
            }
        },
        Request::UpdateData { data } => {
            let key = mapper.key_of(data);
            &&& answer matches Answer::Single(r)
            &&& refines(mapper.fallible(), r, update_outcome(before, key, data))
            &&& after == if r is Ok {
                table_after_update(before, key, data)
            } else {
                before
            }
        },
        Request::DeleteDataById { id } => {
            &&& answer matches Answer::Single(r)
            &&& refines(mapper.fallible(), r, delete_outcome(before, id))
            &&& after == if r is Ok {
                table_after_delete(before, id)
            } else {
                before
            }
        },
    }
}

/// The list answer that stands for `r`.
pub open spec fn listing_of<T>(r: Result<Vec<T>, MapperError>) -> Answer<T> {
    match r {
        Ok(list) => Answer::Listing(Ok(list@)),
        Err(e) => Answer::Listing(Err(e)),
    }
}

/// Runs the operation that `envelope` asks for on `conn` and resolves the
/// reply slot with its result. An error of the mapper is an answer like any
/// other; a caller that is gone makes the resolution a no-op.
pub fn serve<I, T, M: BaseMapper<I, T>>(
    mapper: &M,
    conn: &mut M::Conn,
    envelope: BaseMapperEnum<I, T>,
) -> (out: Served<T>)
    requires
        mapper.sound(old(conn)),
    ensures
        mapper.sound(final(conn)),
        fulfils(
            mapper,
            mapper.table(old(conn)),
            envelope.request(),
            out.answer@,
            mapper.table(final(conn)),
        ),
{
    match envelope {
        BaseMapperEnum::ReadDataList { resp } => {
            let r = mapper.read_data_list(conn);
            let ghost answer = listing_of(r);
            Served { delivery: resolve(resp, r), answer: Ghost(answer) }
        },
        BaseMapperEnum::ReadDataById { id, resp } => {
            let r = mapper.read_data_by_id(conn, id);
            let ghost answer = Answer::Single(r);
            Served { delivery: resolve(resp, r), answer: Ghost(answer) }
        },
        BaseMapperEnum::CreateData { data, resp } => {
            let r = mapper.create_data(conn, data);
            let ghost answer = Answer::Single(r);
            Served { delivery: resolve(resp, r), answer: Ghost(answer) }
        },
        BaseMapperEnum::UpdateData { data, resp } => {
            let r = mapper.update_data(conn, data);
            let ghost answer = Answer::Single(r);
            Served { delivery: resolve(resp, r), answer: Ghost(answer) }
        },
        BaseMapperEnum::DeleteDataById { id, resp } => {
            let r = mapper.delete_data_by_id(conn, id);
            let ghost answer = Answer::Single(r);
            Served { delivery: resolve(resp, r), answer: Ghost(answer) }
        },
    }
}

/// Every idle connection of the pool reaches a valid store.
pub open spec fn all_sound<I, T, M: BaseMapper<I, T>>(mapper: &M, pool: PoolView<M::Conn>) -> bool {
    forall|i: int| 0 <= i < pool.idle.len() ==> mapper.sound(#[trigger] &pool.idle[i])
}

/// What handling one envelope does to the pool `before`, and what is offered
/// to the reply slot. Where the pool hands out no connection, the answer is
/// the pool's refusal and nothing changes. Otherwise the operation runs on
/// the connection that the pool hands out, which is back in its place
/// afterwards: no connection stays outstanding.
pub open spec fn handled<I, T, M: BaseMapper<I, T>>(
    mapper: &M,
    before: PoolView<M::Conn>,
    request: Request<I, T>,
    answer: Answer<T>,
    after: PoolView<M::Conn>,
) -> bool {
    match before.grant() {
        None => after == before && answer == request.failure(before.refusal()),
        Some(conn) => {
            &&& after.closed == before.closed
            &&& after.outstanding == before.outstanding
            &&& after.idle.len() == before.idle.len()
            &&& after.idle.drop_last() == before.idle.drop_last()
            &&& fulfils(mapper, mapper.table(&conn), request, answer, mapper.table(&after.idle.last()))
        },
    }
}

/// The record of a run over a queue of envelopes.
pub struct Report<T, C> {
    /// Where the dispatcher stands at the end.
    pub phase: Phase,
    /// How the resolution of each reply slot ended, in the order of the queue.
    pub deliveries: Vec<Delivery>,
    /// The answer offered to each reply slot, in the order of the queue.
    pub answers: Ghost<Seq<Answer<T>>>,
    /// The pool before each envelope was handled, and after the last one.
    pub stages: Ghost<Seq<PoolView<C>>>,
}

/// Handles the envelopes of `inbox` one after the other, in their order, and
/// stops when the queue is used up. Each envelope is answered exactly once:
/// by the result of its operation, run on a connection checked out for it
/// alone and handed back before the next envelope is taken, or by the error
/// of the pool where it hands out no connection. Once the pool is found
/// closed, no further acquisition is tried and every remaining envelope is
/// answered with `PoolClosed`.
pub fn run<I, T, M: BaseMapper<I, T>>(
    mapper: &M,
    pool: &mut Pool<M::Conn>,
    inbox: Vec<BaseMapperEnum<I, T>>,
) -> (report: Report<T, M::Conn>)
    requires
        old(pool).wf(),
        all_sound(mapper, old(pool)@),
    ensures
        final(pool).wf(),
        all_sound(mapper, final(pool)@),
        report.phase == Phase::Stopped,
        report.deliveries@.len() == inbox@.len(),
        report.answers@.len() == inbox@.len(),
        report.stages@.len() == inbox@.len() + 1,
        report.stages@[0] == old(pool)@,
        report.stages@.last() == final(pool)@,
        final(pool)@.outstanding == old(pool)@.outstanding,
        final(pool)@.idle.len() == old(pool)@.idle.len(),
        final(pool)@.closed == old(pool)@.closed,
        forall|i: int|
            0 <= i < inbox@.len() ==> handled(
                mapper,
                report.stages@[i],
                (#[trigger] inbox@[i]).request(),
                report.answers@[i],
                report.stages@[i + 1],
            ),
{
    let mut dispatcher = Dispatcher::new();
    let mut deliveries: Vec<Delivery> = Vec::new();
    let ghost mut answers: Seq<Answer<T>> = Seq::empty();
    let ghost mut stages: Seq<PoolView<M::Conn>> = seq![pool@];
    let ghost start = pool@;
    let ghost sent = inbox@;
    for envelope in it: inbox.into_iter()
        invariant
            it.seq() == sent,
            pool.wf(),
            all_sound(mapper, pool@),
            dispatcher@ == Phase::Idle || dispatcher@ == Phase::Draining,
            dispatcher@ == Phase::Draining ==> pool@.closed,
            deliveries@.len() == it.index(),
            answers.len() == it.index(),
            stages.len() == it.index() + 1,
            stages[0] == start,
            stages.last() == pool@,
            pool@.outstanding == start.outstanding,
            pool@.idle.len() == start.idle.len(),
            pool@.closed == start.closed,
            forall|i: int|
                0 <= i < it.index() ==> handled(
                    mapper,
                    stages[i],
                    (#[trigger] sent[i]).request(),
                    answers[i],
                    stages[i + 1],
                ),
    {
        let ghost before = pool@;
        let ghost earlier_answers = answers;
        let ghost earlier_stages = stages;
        let served = match dispatcher.on(Event::Arrived) {
            Action::AcquireConnection => {
                match pool.acquire() {
                    Ok(conn) => {
                        let mut conn = conn;
                        assert(mapper.sound(&before.idle[before.idle.len() - 1]));
                        dispatcher.on(Event::LeaseGranted);
                        let served = serve(mapper, &mut conn, envelope);
                        pool.release(conn);
                        dispatcher.on(Event::Completed(served.delivery));
                        proof {
                            assert(pool@.idle.drop_last() =~= before.idle.drop_last());
                            assert forall|i: int| 0 <= i < pool@.idle.len() implies mapper.sound(
                                #[trigger] &pool@.idle[i],
                            ) by {
                                if i < pool@.idle.len() - 1 {
                                    assert(pool@.idle[i] == before.idle[i]);
                                }
                            }
                        }
                        served
                    },
                    Err(error) => {
                        dispatcher.on(Event::LeaseFailed(error));
                        reject(envelope, error)
                    },
                }
            },
            // Draining: the pool is known to be closed.
            _ => reject(envelope, MapperError::PoolClosed),
        };
        deliveries.push(served.delivery);
        proof {
            answers = answers.push(served.answer@);
            stages = stages.push(pool@);
            let n = it.index() as int;
            assert(handled(mapper, before, sent[n].request(), served.answer@, pool@));
            assert forall|i: int| 0 <= i < n + 1 implies handled(
                mapper,
                stages[i],
                (#[trigger] sent[i]).request(),
                answers[i],
                stages[i + 1],
            ) by {
                if i < n {
                    assert(stages[i] == earlier_stages[i]);
                    assert(stages[i + 1] == earlier_stages[i + 1]);
                    assert(answers[i] == earlier_answers[i]);
                }
            }
        }
    }
    dispatcher.on(Event::InboundClosed);
    Report {
        phase: dispatcher.phase(),
        deliveries,
        answers: Ghost(answers),
        stages: Ghost(stages),
    }
}

} // verus!
