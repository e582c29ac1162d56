//! The CRUD contract: what every resource mapper promises of its five
//! operations, stated over a table from keys to entities.

use crate::error::MapperError;
use vstd::prelude::*;

verus! {

/// What reading the entity under `id` yields on `table`.
pub open spec fn read_outcome<I, T>(table: Map<I, T>, id: I) -> Result<T, MapperError> {
    if table.dom().contains(id) {
        Ok(table[id])
    } else {
        Err(MapperError::NotFound)
    }
}

/// What storing a new entity `data` under `key` yields on `table`.
pub open spec fn create_outcome<I, T>(table: Map<I, T>, key: I, data: T) -> Result<
    T,
    MapperError,
> {
    if table.dom().contains(key) {
        Err(MapperError::Conflict)
    } else {
        Ok(data)
    }
}

/// The table after storing a new entity `data` under `key`.
pub open spec fn table_after_create<I, T>(table: Map<I, T>, key: I, data: T) -> Map<I, T> {
    if table.dom().contains(key) {
        table
    } else {
        table.insert(key, data)
    }
}

/// What replacing the entity under `key` by `data` yields on `table`.
pub open spec fn update_outcome<I, T>(table: Map<I, T>, key: I, data: T) -> Result<
    T,
    MapperError,
> {
    if table.dom().contains(key) {
        Ok(data)
    } else {
        Err(MapperError::NotFound)
    }
}

/// The table after replacing the entity under `key` by `data`.
pub open spec fn table_after_update<I, T>(table: Map<I, T>, key: I, data: T) -> Map<I, T> {
    if table.dom().contains(key) {
        table.insert(key, data)
    } else {
        table
    }
}

/// What deleting the entity under `id` yields on `table`: its last state.
pub open spec fn delete_outcome<I, T>(table: Map<I, T>, id: I) -> Result<T, MapperError> {
    if table.dom().contains(id) {
        Ok(table[id])
    } else {
        Err(MapperError::NotFound)
    }
}

/// The table after deleting the entity under `id`.
pub open spec fn table_after_delete<I, T>(table: Map<I, T>, id: I) -> Map<I, T> {
    table.remove(id)
}

/// `list` holds every entity of `table` exactly once, each under its own key.
pub open spec fn is_listing<I, T>(table: Map<I, T>, key_of: spec_fn(T) -> I, list: Seq<T>) -> bool {
    &&& forall|i: int|
        0 <= i < list.len() ==> table.contains_pair(#[trigger] key_of(list[i]), list[i])
    &&& forall|i: int, j: int|
        0 <= i < j < list.len() ==> key_of(list[i]) != key_of(list[j])
    &&& forall|k: I| #[trigger]
        table.dom().contains(k) ==> exists|i: int|
            0 <= i < list.len() && #[trigger] key_of(list[i]) == k
}

/// A mapper answers as the table prescribes. Only where its storage calls
/// can fail (`fallible`) and the table prescribes success, the answer may be
/// `BackendError` instead; an error that the table prescribes is never
/// replaced by another.
pub open spec fn refines<V>(
    fallible: bool,
    got: Result<V, MapperError>,
    prescribed: Result<V, MapperError>,
) -> bool {
    got == prescribed || (fallible && prescribed is Ok && got == Err::<V, MapperError>(
        MapperError::BackendError,
    ))
}

/// The CRUD operations of one resource, each run on a connection that the
/// caller has already checked out. `I` is the key type, `T` the entity type.
pub trait BaseMapper<I, T> {
    /// The connection handle that the operations borrow.
    type Conn;

    /// Whether a storage call of this mapper can fail for reasons that the
    /// table does not show.
    spec fn fallible(&self) -> bool;

    /// The validity of the store that `conn` reaches.
    spec fn sound(&self, conn: &Self::Conn) -> bool;

    /// The entities visible through `conn`, by key.
    spec fn table(&self, conn: &Self::Conn) -> Map<I, T>;

    /// The key under which an entity is stored.
    spec fn key_of(&self, data: T) -> I;

    /// The entity that `create_data` persists for `data` on `table`; it may
    /// differ from `data`, for instance by an assigned key.
    spec fn as_stored(&self, table: Map<I, T>, data: T) -> T;

    /// Returns all entities; an empty table gives an empty list, not an error.
    fn read_data_list(&self, conn: &mut Self::Conn) -> (r: Result<Vec<T>, MapperError>)
        requires
            self.sound(old(conn)),
        ensures
            self.sound(final(conn)),
            self.table(final(conn)) == self.table(old(conn)),
            match r {
                Ok(list) => is_listing(self.table(old(conn)), |e: T| self.key_of(e), list@),
                Err(e) => self.fallible() && e == MapperError::BackendError,
            },
    ;

    /// Returns the entity under `id`, or `NotFound` where there is none.
    fn read_data_by_id(&self, conn: &mut Self::Conn, id: I) -> (r: Result<T, MapperError>)
        requires
            self.sound(old(conn)),
        ensures
            self.sound(final(conn)),
            self.table(final(conn)) == self.table(old(conn)),
            refines(self.fallible(), r, read_outcome(self.table(old(conn)), id)),
            !self.table(old(conn)).dom().contains(id) ==> r == Err::<T, MapperError>(
                MapperError::NotFound,
            ),
    ;

    /// Persists a new entity and returns it as stored; `Conflict` where its
    /// key is taken.
    fn create_data(&self, conn: &mut Self::Conn, data: T) -> (r: Result<T, MapperError>)
        requires
            self.sound(old(conn)),
        ensures
            self.sound(final(conn)),
            ({
                let table = self.table(old(conn));
                let stored = self.as_stored(table, data);
                let key = self.key_of(stored);
                &&& refines(self.fallible(), r, create_outcome(table, key, stored))
                &&& self.table(final(conn)) == if r is Ok {
                    table_after_create(table, key, stored)
                } else {
                    table
                }
            }),
    ;

    /// Replaces the entity that `data` addresses and returns the new state;
    /// `NotFound` where there is none.
    fn update_data(&self, conn: &mut Self::Conn, data: T) -> (r: Result<T, MapperError>)
        requires
            self.sound(old(conn)),
        ensures
            self.sound(final(conn)),
            ({
                let table = self.table(old(conn));
                let key = self.key_of(data);
                &&& refines(self.fallible(), r, update_outcome(table, key, data))
                &&& self.table(final(conn)) == if r is Ok {
                    table_after_update(table, key, data)
                } else {
                    table
                }
                &&& !table.dom().contains(key) ==> r == Err::<T, MapperError>(MapperError::NotFound)
                    && self.table(final(conn)) == table
            }),
    ;

    /// Removes the entity under `id` and returns its last state; `NotFound`
    /// where there is none.
    fn delete_data_by_id(&self, conn: &mut Self::Conn, id: I) -> (r: Result<T, MapperError>)
        requires
            self.sound(old(conn)),
        ensures
            self.sound(final(conn)),
            ({
                let table = self.table(old(conn));
                &&& refines(self.fallible(), r, delete_outcome(table, id))
                &&& self.table(final(conn)) == if r is Ok {
                    table_after_delete(table, id)
                } else {
                    table
                }
            }),
    ;
}

} // verus!
