//! What holds of the dispatcher and of every mapper that keeps the CRUD
//! contract, whatever the requests and whatever the order of events.

use crate::dispatcher::{
    accepts, answers, fulfils, handled, next_action, next_phase, Action, Event, Phase,
};
use crate::envelope::{Answer, Delivery, Request};
use crate::error::MapperError;
use crate::mapper::{
    create_outcome, delete_outcome, read_outcome, table_after_create, table_after_delete,
    table_after_update, update_outcome, BaseMapper,
};
use crate::pool::PoolView;
use vstd::prelude::*;

verus! {

/// The dispatcher's books: each envelope gets, when it is taken in, the next
/// number in the order of arrival; the books follow the envelope in hand and
/// note the number of each envelope whose reply slot is resolved.
pub struct Ledger {
    pub phase: Phase,
    /// How many envelopes have been taken in.
    pub taken: nat,
    /// The number of the envelope in hand, if there is one.
    pub hand: Option<nat>,
    /// The numbers of the envelopes answered, in the order of the answers.
    pub replies: Seq<nat>,
}

/// The books of a dispatcher that has seen nothing yet.
pub open spec fn opening() -> Ledger {
    Ledger { phase: Phase::Idle, taken: 0, hand: None, replies: Seq::empty() }
}

/// The books after one more event.
pub open spec fn record(ledger: Ledger, event: Event) -> Ledger {
    let phase = next_phase(ledger.phase, event);
    let taken_in = accepts(ledger.phase, event);
    let taken = if taken_in {
        ledger.taken + 1
    } else {
        ledger.taken
    };
    let hand = if taken_in {
        Some(ledger.taken)
    } else {
        ledger.hand
    };
    if answers(ledger.phase, event) {
        Ledger {
            phase,
            taken,
            hand: None,
            replies: match hand {
                Some(number) => ledger.replies.push(number),
                None => ledger.replies,
            },
        }
    } else {
        Ledger { phase, taken, hand, replies: ledger.replies }
    }
}

/// The books after a sequence of events, from a fresh dispatcher.
pub open spec fn ledger_after(events: Seq<Event>) -> Ledger
    decreases events.len(),
{
    if events.len() == 0 {
        opening()
    } else {
        record(ledger_after(events.drop_last()), events.last())
    }
}

/// Replies come in the order of arrival. Whatever the events, the k-th reply
/// answers the k-th envelope taken in; every envelope taken in has been
/// answered but the one in hand, if there is one, and that one is the latest.
pub proof fn law_replies_follow_arrival(events: Seq<Event>)
    ensures
        ({
            let books = ledger_after(events);
            &&& forall|k: int| 0 <= k < books.replies.len() ==> books.replies[k] == k
            &&& books.phase.in_hand() ==> books.hand == Some((books.taken - 1) as nat)
                && books.replies.len() + 1 == books.taken
            &&& !books.phase.in_hand() ==> books.hand.is_none() && books.replies.len()
                == books.taken
        }),
    decreases events.len(),
{
    if events.len() > 0 {
        law_replies_follow_arrival(events.drop_last());
    }
}

/// A dispatcher holds at most one connection, and none while it waits for an
/// envelope or has stopped: each handled envelope gives its connection back.
pub proof fn law_connection_held_only_while_executing(events: Seq<Event>)
    ensures
        ledger_after(events).phase.held() <= 1,
        ledger_after(events).phase.held() == 1 <==> ledger_after(events).phase == Phase::Executing,
        events.len() > 0 && events.last() is Completed ==> ledger_after(events).phase.held() == 0,
    decreases events.len(),
{
    if events.len() > 0 {
        law_connection_held_only_while_executing(events.drop_last());
    }
}

/// A caller that dropped its receiver half changes nothing for the
/// dispatcher: after an operation it goes on in the same way whether the
/// answer was delivered or not.
pub proof fn law_abandoned_reply_changes_nothing(phase: Phase, one: Delivery, other: Delivery)
    ensures
        next_phase(phase, Event::Completed(one)) == next_phase(phase, Event::Completed(other)),
        next_action(phase, Event::Completed(one)) == next_action(phase, Event::Completed(other)),
        phase == Phase::Executing ==> next_phase(phase, Event::Completed(one)) == Phase::Idle,
{
}

/// A failed operation never ends the loop: only the closing of the inbound
/// channel stops the dispatcher, and only a closed pool makes it drain.
pub proof fn law_only_closing_stops(phase: Phase, event: Event)
    ensures
        next_phase(phase, event) == Phase::Stopped ==> phase == Phase::Stopped
            || event == Event::InboundClosed,
        next_phase(phase, event) == Phase::Draining ==> phase == Phase::Draining
            || event == Event::LeaseFailed(MapperError::PoolClosed),
{
}

/// Once the pool is closed, every envelope that still arrives is answered
/// with `PoolClosed`, and the dispatcher keeps doing so until the inbound
/// channel is closed.
pub proof fn law_draining_answers_pool_closed(event: Event)
    ensures
        event == Event::Arrived ==> next_action(Phase::Draining, event) == Action::Reject(
            MapperError::PoolClosed,
        ) && next_phase(Phase::Draining, event) == Phase::Draining,
        event != Event::InboundClosed ==> next_phase(Phase::Draining, event) == Phase::Draining,
{
}

/// Reading a key that has no entity yields `NotFound`, never another error.
pub proof fn law_read_of_absent_key<I, T, M: BaseMapper<I, T>>(
    mapper: &M,
    before: Map<I, T>,
    id: I,
    answer: Answer<T>,
    after: Map<I, T>,
)
    requires
        fulfils(mapper, before, Request::ReadDataById { id }, answer, after),
        !before.dom().contains(id),
    ensures
        answer == Answer::Single(Err::<T, MapperError>(MapperError::NotFound)),
        after == before,
{
}

/// An entity that was created is found under its key, equal to what the
/// creation returned. Only a mapper whose storage calls can fail may answer
/// the read with `BackendError` instead, which the precondition leaves out.
pub proof fn law_create_then_read<I, T, M: BaseMapper<I, T>>(
    mapper: &M,
    before: Map<I, T>,
    data: T,
    created: T,
    between: Map<I, T>,
    answer: Answer<T>,
    after: Map<I, T>,
)
    requires
        fulfils(
            mapper,
            before,
            Request::CreateData { data },
            Answer::Single(Ok::<T, MapperError>(created)),
            between,
        ),
        fulfils(
            mapper,
            between,
            Request::ReadDataById { id: mapper.key_of(created) },
            answer,
            after,
        ),
        !mapper.fallible() || answer != Answer::Single(
            Err::<T, MapperError>(MapperError::BackendError),
        ),
    ensures
        answer == Answer::Single(Ok::<T, MapperError>(created)),
        after == between,
{
}

/// The same on the table alone, where no storage call can fail.
pub proof fn law_create_then_read_on_table<I, T>(table: Map<I, T>, key: I, data: T)
    requires
        create_outcome(table, key, data) is Ok,
    ensures
        read_outcome(table_after_create(table, key, data), key) == Ok::<T, MapperError>(data),
{
}

/// Updating a key that has no entity yields `NotFound` and leaves every
/// entity as it was.
pub proof fn law_update_of_absent_key<I, T, M: BaseMapper<I, T>>(
    mapper: &M,
    before: Map<I, T>,
    data: T,
    answer: Answer<T>,
    after: Map<I, T>,
)
    requires
        fulfils(mapper, before, Request::UpdateData { data }, answer, after),
        !before.dom().contains(mapper.key_of(data)),
    ensures
        answer == Answer::Single(Err::<T, MapperError>(MapperError::NotFound)),
        after == before,
{
}

/// The same on the table alone.
pub proof fn law_update_of_absent_key_on_table<I, T>(table: Map<I, T>, key: I, data: T)
    requires
        !table.dom().contains(key),
    ensures
        update_outcome(table, key, data) == Err::<T, MapperError>(MapperError::NotFound),
        table_after_update(table, key, data) == table,
{
}

/// An update touches no entity but the one it addresses.
pub proof fn law_update_leaves_others<I, T, M: BaseMapper<I, T>>(
    mapper: &M,
    before: Map<I, T>,
    data: T,
    answer: Answer<T>,
    after: Map<I, T>,
    other: I,
)
    requires
        fulfils(mapper, before, Request::UpdateData { data }, answer, after),
        other != mapper.key_of(data),
    ensures
        after.dom().contains(other) == before.dom().contains(other),
        before.dom().contains(other) ==> after[other] == before[other],
{
}

/// Deleting twice: after a delete that succeeded, a second delete of the
/// same key yields `NotFound` and changes nothing.
pub proof fn law_second_delete_finds_nothing<I, T, M: BaseMapper<I, T>>(
    mapper: &M,
    before: Map<I, T>,
    id: I,
    gone: T,
    between: Map<I, T>,
    answer: Answer<T>,
    after: Map<I, T>,
)
    requires
        fulfils(
            mapper,
            before,
            Request::DeleteDataById { id },
            Answer::Single(Ok::<T, MapperError>(gone)),
            between,
        ),
        fulfils(mapper, between, Request::DeleteDataById { id }, answer, after),
    ensures
        gone == before[id],
        answer == Answer::Single(Err::<T, MapperError>(MapperError::NotFound)),
        after == between,
{
}

/// The same on the table alone.
pub proof fn law_second_delete_on_table<I, T>(table: Map<I, T>, id: I)
    requires
        delete_outcome(table, id) is Ok,
    ensures
        delete_outcome(table_after_delete(table, id), id) == Err::<T, MapperError>(
            MapperError::NotFound,
        ),
        table_after_delete(table_after_delete(table, id), id) == table_after_delete(table, id),
{
    assert(table.remove(id).remove(id) =~= table.remove(id));
}

/// No connection leaks: after an envelope was handled, as many connections
/// are outstanding as before, whether its operation succeeded, failed or
/// never ran, and the pool owns as many connections as before.
pub proof fn law_no_connection_leak<I, T, M: BaseMapper<I, T>>(
    mapper: &M,
    before: PoolView<M::Conn>,
    request: Request<I, T>,
    answer: Answer<T>,
    after: PoolView<M::Conn>,
)
    requires
        handled(mapper, before, request, answer, after),
    ensures
        after.outstanding == before.outstanding,
        after.capacity() == before.capacity(),
        after.closed == before.closed,
{
}

/// A connection that was checked out and handed back leaves the pool as it
/// was found but for the connection itself.
pub proof fn law_release_restores_baseline<C>(pool: PoolView<C>, conn: C)
    requires
        pool.grant() is Some,
    ensures
        pool.after_acquire().after_release(conn).outstanding == pool.outstanding,
        pool.after_acquire().after_release(conn).capacity() == pool.capacity(),
        pool.after_acquire().after_release(pool.grant()->0) == pool,
{
    assert(pool.idle.drop_last().push(pool.idle.last()) =~= pool.idle);
}

/// A closed pool answers every envelope with `PoolClosed` and is left as it
/// was.
pub proof fn law_closed_pool_refuses<I, T, M: BaseMapper<I, T>>(
    mapper: &M,
    before: PoolView<M::Conn>,
    request: Request<I, T>,
    answer: Answer<T>,
    after: PoolView<M::Conn>,
)
    requires
        handled(mapper, before, request, answer, after),
        before.closed,
    ensures
        answer == request.failure(MapperError::PoolClosed),
        after == before,
{
}

} // verus!
