//! A bounded pool of connections: a connection is either idle in the pool or
//! lent to exactly one holder.

use crate::error::MapperError;
use vstd::prelude::*;

verus! {

/// What a pool holds, as plain values.
pub struct PoolView<C> {
    /// The idle connections; the last one is lent first.
    pub idle: Seq<C>,
    /// The number of connections that are lent and not yet returned.
    pub outstanding: nat,
    /// Whether the pool has been shut down.
    pub closed: bool,
}

impl<C> PoolView<C> {
    /// The connection that an acquisition hands out, if it hands one out.
    pub open spec fn grant(self) -> Option<C> {
        if self.closed || self.idle.len() == 0 {
            None
        } else {
            Some(self.idle.last())
        }
    }

    /// Why an acquisition fails, where it does.
    pub open spec fn refusal(self) -> MapperError {
        if self.closed {
            MapperError::PoolClosed
        } else {
            MapperError::PoolExhaustedTimeout
        }
    }

    /// The pool after a successful acquisition.
    pub open spec fn after_acquire(self) -> PoolView<C> {
        PoolView {
            idle: self.idle.drop_last(),
            outstanding: self.outstanding + 1,
            closed: self.closed,
        }
    }

    /// The pool after `conn` was handed back. A connection handed in while
    /// none is outstanding is not taken in.
    pub open spec fn after_release(self, conn: C) -> PoolView<C> {
        if self.outstanding > 0 {
            PoolView {
                idle: self.idle.push(conn),
                outstanding: (self.outstanding - 1) as nat,
                closed: self.closed,
            }
        } else {
            self
        }
    }

    /// The number of connections that the pool owns, idle or lent.
    pub open spec fn capacity(self) -> nat {
        self.idle.len() + self.outstanding
    }
}

/// A pool over a fixed set of connections.
pub struct Pool<C> {
    idle: Vec<C>,
    lent: usize,
    closed: bool,
}

impl<C> View for Pool<C> {
    type V = PoolView<C>;

    closed spec fn view(&self) -> PoolView<C> {
        PoolView { idle: self.idle@, outstanding: self.lent as nat, closed: self.closed }
    }
}

impl<C> Pool<C> {
    /// The connections, idle and lent together, can be counted.
    pub closed spec fn wf(&self) -> bool {
        self.idle@.len() + self.lent <= usize::MAX
    }

    /// A pool that owns `connections`, all of them idle.
    pub fn new(connections: Vec<C>) -> (pool: Self)
        ensures
            pool.wf(),
            pool@ == (PoolView { idle: connections@, outstanding: 0, closed: false }),
    {
        let n: usize = connections.len();
        Pool { idle: connections, lent: 0, closed: false }
    }

    /// Checks a connection out. A closed pool answers `PoolClosed`, a pool
    /// with no idle connection `PoolExhaustedTimeout`.
    pub fn acquire(&mut self) -> (lease: Result<C, MapperError>)
        requires
            old(self).wf(),
        ensures
            final(self).wf(),
            lease == match old(self)@.grant() {
                Some(conn) => Ok::<C, MapperError>(conn),
                None => Err::<C, MapperError>(old(self)@.refusal()),
            },
            final(self)@ == if lease is Ok {
                old(self)@.after_acquire()
            } else {
                old(self)@
            },
    {
        if self.closed {
            return Err(MapperError::PoolClosed);
        }
        match self.idle.pop() {
            Some(conn) => {
                self.lent = self.lent + 1;
                Ok(conn)
            },
            None => Err(MapperError::PoolExhaustedTimeout),
        }
    }

    /// Hands a connection back.
    pub fn release(&mut self, conn: C)
        requires
            old(self).wf(),
        ensures
            final(self).wf(),
            final(self)@ == old(self)@.after_release(conn),
    {
        if self.lent > 0 {
            self.lent = self.lent - 1;
            self.idle.push(conn);
        }
    }

    /// Shuts the pool down for good: every later acquisition fails.
    pub fn close(&mut self)
        ensures
            final(self).wf() == old(self).wf(),
            final(self)@ == (PoolView { closed: true, ..old(self)@ }),
    {
        self.closed = true;
    }

    /// The number of connections that are lent and not yet returned.
    pub fn outstanding(&self) -> (n: usize)
        ensures
            n == self@.outstanding,
    {
        self.lent
    }

    /// The number of idle connections.
    pub fn available(&self) -> (n: usize)
        ensures
            n == self@.idle.len(),
    {
        self.idle.len()
    }

    /// Whether the pool has been shut down.
    pub fn is_closed(&self) -> (b: bool)
        ensures
            b == self@.closed,
    {
        self.closed
    }
}

} // verus!
