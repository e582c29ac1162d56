//! An in-memory mapper: entities kept in a vector, in the order in which they
//! were created, each under a key of its own.

use crate::error::MapperError;
use crate::mapper::{
    create_outcome, delete_outcome, is_listing, read_outcome, update_outcome, BaseMapper,
};
use vstd::prelude::*;

verus! {

/// An entity of the in-memory store: a value under a key.
#[derive(Clone, Copy, Debug, PartialEq, Eq)]
pub struct Entry<V> {
    pub key: u64,
    pub value: V,
}

/// Whether some row of `rows` has the key `key`.
pub open spec fn has_key<V>(rows: Seq<Entry<V>>, key: u64) -> bool {
    exists|i: int| 0 <= i < rows.len() && #[trigger] rows[i].key == key
}

/// An index at which `rows` holds the key `key`.
pub open spec fn row_of<V>(rows: Seq<Entry<V>>, key: u64) -> int {
    choose|i: int| 0 <= i < rows.len() && #[trigger] rows[i].key == key
}

/// No key occurs in two rows.
pub open spec fn distinct_keys<V>(rows: Seq<Entry<V>>) -> bool {
    forall|i: int, j: int| 0 <= i < j < rows.len() ==> rows[i].key != rows[j].key
}

/// The rows as a table from keys to entities.
pub open spec fn table_of<V>(rows: Seq<Entry<V>>) -> Map<u64, Entry<V>> {
    Map::new(|k: u64| has_key(rows, k), |k: u64| rows[row_of(rows, k)])
}

/// With distinct keys, the table holds each row under its key.
pub proof fn lemma_table_row<V>(rows: Seq<Entry<V>>, i: int)
    requires
        distinct_keys(rows),
        0 <= i < rows.len(),
    ensures
        has_key(rows, rows[i].key),
        row_of(rows, rows[i].key) == i,
        table_of(rows).contains_pair(rows[i].key, rows[i]),
{
    let j = row_of(rows, rows[i].key);
    assert(0 <= j < rows.len() && rows[j].key == rows[i].key);
    if j < i {
        assert(rows[j].key != rows[i].key);
    } else if i < j {
        assert(rows[i].key != rows[j].key);
    }
}

/// Appending a row with a fresh key inserts it into the table.
pub proof fn lemma_table_push<V>(rows: Seq<Entry<V>>, e: Entry<V>)
    requires
        distinct_keys(rows),
        !has_key(rows, e.key),
    ensures
        distinct_keys(rows.push(e)),
        table_of(rows.push(e)) == table_of(rows).insert(e.key, e),
{
    let after = rows.push(e);
    assert forall|i: int, j: int| 0 <= i < j < after.len() implies after[i].key != after[j].key by {
        if j == rows.len() {
            assert(rows[i].key != e.key);
        } else {
            assert(rows[i].key != rows[j].key);
        }
    }
    assert forall|k: u64| has_key(after, k) <==> (k == e.key || has_key(rows, k)) by {
        if has_key(after, k) {
            let i = row_of(after, k);
            if i < rows.len() {
                assert(rows[i].key == k);
            }
        }
        if k == e.key {
            assert(after[rows.len() as int].key == k);
        }
        if has_key(rows, k) {
            let i = row_of(rows, k);
            assert(after[i].key == k);
        }
    }
    assert forall|k: u64| has_key(after, k) implies #[trigger] table_of(after)[k] == table_of(
        rows,
    ).insert(e.key, e)[k] by {
        let i = row_of(after, k);
        lemma_table_row(after, i);
        if i < rows.len() {
            lemma_table_row(rows, i);
        }
    }
    assert(table_of(after) =~= table_of(rows).insert(e.key, e));
}

/// Replacing a row by one of the same key replaces it in the table.
pub proof fn lemma_table_update<V>(rows: Seq<Entry<V>>, i: int, e: Entry<V>)
    requires
        distinct_keys(rows),
        0 <= i < rows.len(),
        rows[i].key == e.key,
    ensures
        distinct_keys(rows.update(i, e)),
        table_of(rows.update(i, e)) == table_of(rows).insert(e.key, e),
{
    let after = rows.update(i, e);
    assert forall|a: int, b: int| 0 <= a < b < after.len() implies after[a].key != after[b].key by {
        assert(rows[a].key != rows[b].key);
    }
    assert forall|k: u64| has_key(after, k) <==> has_key(rows, k) by {
        if has_key(after, k) {
            let j = row_of(after, k);
            assert(rows[j].key == k);
        }
        if has_key(rows, k) {
            let j = row_of(rows, k);
            assert(after[j].key == k);
        }
    }
    assert(has_key(rows, e.key)) by {
        assert(rows[i].key == e.key);
    }
    assert forall|k: u64| has_key(after, k) implies #[trigger] table_of(after)[k] == table_of(
        rows,
    ).insert(e.key, e)[k] by {
        let j = row_of(after, k);
        lemma_table_row(after, j);
        lemma_table_row(rows, j);
    }
    assert(table_of(after) =~= table_of(rows).insert(e.key, e));
}

/// Taking a row out takes its key out of the table.
pub proof fn lemma_table_remove<V>(rows: Seq<Entry<V>>, i: int)
    requires
        distinct_keys(rows),
        0 <= i < rows.len(),
    ensures
        distinct_keys(rows.remove(i)),
        table_of(rows.remove(i)) == table_of(rows).remove(rows[i].key),
{
    let after = rows.remove(i);
    assert forall|a: int, b: int| 0 <= a < b < after.len() implies after[a].key != after[b].key by {
        let a0 = if a < i { a } else { a + 1 };
        let b0 = if b < i { b } else { b + 1 };
        assert(rows[a0].key != rows[b0].key);
    }
    assert forall|k: u64| has_key(after, k) <==> (has_key(rows, k) && k != rows[i].key) by {
        if has_key(after, k) {
            let j = row_of(after, k);
            let j0 = if j < i { j } else { j + 1 };
            assert(rows[j0].key == k);
            if j0 < i {
                assert(rows[j0].key != rows[i].key);
            } else {
                assert(rows[i].key != rows[j0].key);
            }
        }
        if has_key(rows, k) && k != rows[i].key {
            let j = row_of(rows, k);
            let j1 = if j < i { j } else { j - 1 };
            assert(after[j1].key == k);
        }
    }
    assert forall|k: u64| has_key(after, k) implies #[trigger] table_of(after)[k] == table_of(
        rows,
    ).remove(rows[i].key)[k] by {
        let j = row_of(after, k);
        let j0 = if j < i { j } else { j + 1 };
        lemma_table_row(after, j);
        lemma_table_row(rows, j0);
    }
    assert(table_of(after) =~= table_of(rows).remove(rows[i].key));
}

/// With distinct keys, the rows list their own table.
pub proof fn lemma_rows_list_table<V>(rows: Seq<Entry<V>>)
    requires
        distinct_keys(rows),
    ensures
        is_listing(table_of(rows), |e: Entry<V>| e.key, rows),
{
    let key_of = |e: Entry<V>| e.key;
    assert forall|i: int| 0 <= i < rows.len() implies table_of(rows).contains_pair(
        #[trigger] key_of(rows[i]),
        rows[i],
    ) by {
        lemma_table_row(rows, i);
    }
    assert forall|k: u64| #[trigger] table_of(rows).dom().contains(k) implies exists|i: int|
        0 <= i < rows.len() && #[trigger] key_of(rows[i]) == k by {
        let i = row_of(rows, k);
        assert(0 <= i < rows.len() && key_of(rows[i]) == k);
    }
}

/// The store that an in-memory connection reaches.
pub struct MemoryStore<V> {
    rows: Vec<Entry<V>>,
}

impl<V> View for MemoryStore<V> {
    type V = Seq<Entry<V>>;

    /// The rows, in the order in which they were created.
    closed spec fn view(&self) -> Seq<Entry<V>> {
        self.rows@
    }
}

impl<V: Copy> MemoryStore<V> {
    /// No key occurs twice.
    pub open spec fn wf(&self) -> bool {
        distinct_keys(self@)
    }

    /// An empty store.
    pub fn new() -> (store: Self)
        ensures
            store.wf(),
            store@ == Seq::<Entry<V>>::empty(),
    {
        MemoryStore { rows: Vec::new() }
    }

    /// The number of entities held.
    pub fn len(&self) -> (n: usize)
        ensures
            n == self@.len(),
    {
        self.rows.len()
    }

    /// The first index whose row has the key `key`.
    pub fn position(&self, key: u64) -> (found: Option<usize>)
        ensures
            match found {
                Some(i) => i < self@.len() && self@[i as int].key == key && forall|j: int|
                    0 <= j < i ==> self@[j].key != key,
                None => !has_key(self@, key),
            },
    {
        let mut i: usize = 0;
        while i < self.rows.len()
            invariant
                i <= self.rows@.len(),
                forall|j: int| 0 <= j < i ==> self.rows@[j].key != key,
            decreases self.rows@.len() - i,
        {
            if self.rows[i].key == key {
                return Some(i);
            }
            i += 1;
        }
        None
    }

    /// A copy of the rows, in order.
    pub fn snapshot(&self) -> (list: Vec<Entry<V>>)
        ensures
            list@ == self@,
    {
        let mut list: Vec<Entry<V>> = Vec::new();
        let mut i: usize = 0;
        while i < self.rows.len()
            invariant
                i <= self.rows@.len(),
                list@ == self.rows@.subrange(0, i as int),
            decreases self.rows@.len() - i,
        {
            list.push(self.rows[i]);
            assert(list@ == self.rows@.subrange(0, i + 1));
            i += 1;
        }
        assert(list@ == self.rows@);
        list
    }
}

/// The mapper of the in-memory store. It holds no state of its own: the data
/// lives behind the connection.
pub struct MemoryMapper {}

impl<V: Copy> BaseMapper<u64, Entry<V>> for MemoryMapper {
    type Conn = MemoryStore<V>;

    open spec fn fallible(&self) -> bool {
        false
    }

    open spec fn sound(&self, conn: &MemoryStore<V>) -> bool {
        conn.wf()
    }

    open spec fn table(&self, conn: &MemoryStore<V>) -> Map<u64, Entry<V>> {
        table_of(conn@)
    }

    open spec fn key_of(&self, data: Entry<V>) -> u64 {
        data.key
    }

    open spec fn as_stored(&self, table: Map<u64, Entry<V>>, data: Entry<V>) -> Entry<V> {
        data
    }

    /// Never fails: the list is the rows in the order of their creation.
    fn read_data_list(&self, conn: &mut MemoryStore<V>) -> (r: Result<Vec<Entry<V>>, MapperError>)
        ensures
            final(conn)@ == old(conn)@,
            r matches Ok(list) && list@ == old(conn)@,
    {
        let list = conn.snapshot();
        proof {
            lemma_rows_list_table(conn@);
            assert((|e: Entry<V>| self.key_of(e)) =~= (|e: Entry<V>| e.key));
        }
        Ok(list)
    }

    /// Answers exactly as the table prescribes.
    fn read_data_by_id(&self, conn: &mut MemoryStore<V>, id: u64) -> (r: Result<
        Entry<V>,
        MapperError,
    >)
        ensures
            final(conn)@ == old(conn)@,
            r == read_outcome(table_of(old(conn)@), id),
    {
        match conn.position(id) {
            Some(i) => {
                proof {
                    lemma_table_row(conn@, i as int);
                }
                Ok(conn.rows[i])
            },
            None => Err(MapperError::NotFound),
        }
    }

    /// Answers exactly as the table prescribes; a new entity goes last.
    fn create_data(&self, conn: &mut MemoryStore<V>, data: Entry<V>) -> (r: Result<
        Entry<V>,
        MapperError,
    >)
        ensures
            r == create_outcome(table_of(old(conn)@), data.key, data),
            final(conn)@ == if r is Ok {
                old(conn)@.push(data)
            } else {
                old(conn)@
            },
    {
        match conn.position(data.key) {
            Some(i) => {
                proof {
                    lemma_table_row(conn@, i as int);
                }
                Err(MapperError::Conflict)
            },
            None => {
                proof {
                    lemma_table_push(conn@, data);
                }
                conn.rows.push(data);
                Ok(data)
            },
        }
    }

    /// Answers exactly as the table prescribes; the entity keeps its place.
    fn update_data(&self, conn: &mut MemoryStore<V>, data: Entry<V>) -> (r: Result<
        Entry<V>,
        MapperError,
    >)
        ensures
            r == update_outcome(table_of(old(conn)@), data.key, data),
            final(conn)@ == if r is Ok {
                old(conn)@.update(row_of(old(conn)@, data.key), data)
            } else {
                old(conn)@
            },
    {
        match conn.position(data.key) {
            Some(i) => {
                proof {
                    lemma_table_row(conn@, i as int);
                    lemma_table_update(conn@, i as int, data);
                }
                conn.rows.set(i, data);
                Ok(data)
            },
            None => Err(MapperError::NotFound),
        }
    }

    /// Answers exactly as the table prescribes; the other entities keep
    /// their order.
    fn delete_data_by_id(&self, conn: &mut MemoryStore<V>, id: u64) -> (r: Result<
        Entry<V>,
        MapperError,
    >)
        ensures
            r == delete_outcome(table_of(old(conn)@), id),
            final(conn)@ == if r is Ok {
                old(conn)@.remove(row_of(old(conn)@, id))
            } else {
                old(conn)@
            },
    {
        match conn.position(id) {
            Some(i) => {
                proof {
                    lemma_table_row(conn@, i as int);
                    lemma_table_remove(conn@, i as int);
                }
                let gone = conn.rows.remove(i);
                Ok(gone)
            },
            None => Err(MapperError::NotFound),
        }
    }
}

} // verus!
