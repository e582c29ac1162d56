//! Command envelopes: one CRUD request each, together with the single-use
//! slot through which its answer travels back to the caller.

use crate::error::MapperError;
use tokio::sync::oneshot::Sender;
use vstd::prelude::*;

verus! {

/// `tokio::sync::oneshot::Sender`, the sender half of a channel for a single
/// value, taken as an opaque value: it is carried along and handed to
/// `send_through`.
#[verifier::external_type_specification]
#[verifier::external_body]
#[verifier::reject_recursive_types(T)]
pub struct ExSender<T>(Sender<T>);

/// The sender half of a reply slot. The caller keeps the receiver half.
pub type Responder<T> = Sender<Result<T, MapperError>>;

/// A request to a mapper, with the reply slot that its answer is owed to.
#[derive(Debug)]
#[verifier::reject_recursive_types(T)]
#[allow(inconsistent_fields)]
pub enum BaseMapperEnum<I, T> {
    ReadDataList { resp: Responder<Vec<T>> },
    ReadDataById { id: I, resp: Responder<T> },
    CreateData { data: T, resp: Responder<T> },
    UpdateData { data: T, resp: Responder<T> },
    DeleteDataById { id: I, resp: Responder<T> },
}

/// What an envelope asks for, without its reply slot.
pub enum Request<I, T> {
    ReadDataList,
    ReadDataById { id: I },
    CreateData { data: T },
    UpdateData { data: T },
    DeleteDataById { id: I },
}

/// What is offered to a reply slot: a list for `ReadDataList`, one entity for
/// the other requests, or the error in its place.
pub enum Answer<T> {
    Listing(Result<Seq<T>, MapperError>),
    Single(Result<T, MapperError>),
}

/// How an attempt to resolve a reply slot ended.
#[derive(Clone, Copy, Debug, PartialEq, Eq, Structural)]
pub enum Delivery {
    /// The receiver half was still there to take the answer.
    Delivered,
    /// The caller had dropped the receiver half; the answer was discarded.
    Abandoned,
}

/// The record of one resolved reply slot.
pub struct Served<T> {
    pub delivery: Delivery,
    /// The answer that was offered to the slot.
    pub answer: Ghost<Answer<T>>,
}

impl<I, T> Request<I, T> {
    /// Whether the answer is a list.
    pub open spec fn wants_list(self) -> bool {
        self is ReadDataList
    }

    /// The answer that reports `error` for this request.
    pub open spec fn failure(self, error: MapperError) -> Answer<T> {
        if self.wants_list() {
            Answer::Listing(Err(error))
        } else {
            Answer::Single(Err(error))
        }
    }
}

impl<I, T> BaseMapperEnum<I, T> {
    /// The request that the envelope carries.
    pub open spec fn request(self) -> Request<I, T> {
        match self {
            BaseMapperEnum::ReadDataList { .. } => Request::ReadDataList,
            BaseMapperEnum::ReadDataById { id, .. } => Request::ReadDataById { id },
            BaseMapperEnum::CreateData { data, .. } => Request::CreateData { data },
            BaseMapperEnum::UpdateData { data, .. } => Request::UpdateData { data },
            BaseMapperEnum::DeleteDataById { id, .. } => Request::DeleteDataById { id },
        }
    }
}

/// `tokio::sync::oneshot::Sender::send`. It consumes the sender half and never
/// waits. Where the receiver half is gone it returns `Err` with the very value
/// that it was given; whether the receiver is gone is not known beforehand.
#[verifier::external_body]
fn send_through<V>(slot: Sender<V>, value: V) -> (sent: Result<(), V>)
    ensures
        sent matches Err(back) ==> back == value,
{
    slot.send(value)
}

/// Reads the result of a send as a delivery: a value that came back was not
/// delivered.
pub fn delivery_of<V>(sent: &Result<(), V>) -> (delivery: Delivery)
    ensures
        delivery == if sent is Ok {
            Delivery::Delivered
        } else {
            Delivery::Abandoned
        },
{
    match sent {
        Ok(_) => Delivery::Delivered,
        Err(_) => Delivery::Abandoned,
    }
}

/// Resolves a reply slot with `outcome`. Whether the caller still holds the
/// receiver half decides the result, and nothing else does: a caller that
/// dropped it makes this a no-op, reported as `Abandoned`, not a failure.
pub fn resolve<V>(resp: Responder<V>, outcome: Result<V, MapperError>) -> (delivery: Delivery) {
    let sent = send_through(resp, outcome);
    delivery_of(&sent)
}

/// Resolves the envelope's reply slot with `error`, whatever it asked for.
pub fn reject<I, T>(envelope: BaseMapperEnum<I, T>, error: MapperError) -> (out: Served<T>)
    ensures
        out.answer@ == envelope.request().failure(error),
{
    match envelope {
        BaseMapperEnum::ReadDataList { resp } => Served {
            delivery: resolve(resp, Err(error)),
            answer: Ghost(Answer::Listing(Err(error))),
        },
        BaseMapperEnum::ReadDataById { id: _, resp } => Served {
            delivery: resolve(resp, Err(error)),
            answer: Ghost(Answer::Single(Err(error))),
        },
        BaseMapperEnum::CreateData { data: _, resp } => Served {
            delivery: resolve(resp, Err(error)),
            answer: Ghost(Answer::Single(Err(error))),
        },
        BaseMapperEnum::UpdateData { data: _, resp } => Served {
            delivery: resolve(resp, Err(error)),
            answer: Ghost(Answer::Single(Err(error))),
        },
        BaseMapperEnum::DeleteDataById { id: _, resp } => Served {
            delivery: resolve(resp, Err(error)),
            answer: Ghost(Answer::Single(Err(error))),
        },
    }
}

} // verus!
