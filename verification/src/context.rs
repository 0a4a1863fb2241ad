//! The execution context: query-scoped resolution of table handles.
//!
//! A source processor resolves its table through the context: the
//! database is resolved first, by exact name, then the table within it.
//! Either miss is a `NotFound` error surfaced immediately.

use std::sync::Arc;

use vstd::prelude::*;

use crate::database::{lookup_table, Database, IDatabase};
use crate::error::EngineError;
use crate::table::Table;

verus! {

/// The index of the first database of `dbs` named `name`, or -1.
pub open spec fn database_index(dbs: Seq<Database>, name: Seq<char>) -> int
    decreases dbs.len(),
{
    if dbs.len() == 0 {
        -1
    } else if dbs[0].name@ == name {
        0
    } else {
        let rest = database_index(dbs.drop_first(), name);
        if rest == -1 {
            -1
        } else {
            rest + 1
        }
    }
}

/// If every database before `k` misses the name and database `k`
/// carries it, `k` is the first index carrying it.
proof fn lemma_database_index_skip(dbs: Seq<Database>, name: Seq<char>, k: int)
    requires
        0 <= k < dbs.len(),
        forall|j: int| 0 <= j < k ==> dbs[j].name@ != name,
        dbs[k].name@ == name,
    ensures
        database_index(dbs, name) == k,
    decreases k,
{
    if k > 0 {
        assert(forall|j: int| 0 <= j < k - 1 ==> dbs.drop_first()[j] == dbs[j + 1]);
        assert(dbs.drop_first()[k - 1] == dbs[k]);
        lemma_database_index_skip(dbs.drop_first(), name, k - 1);
    }
}

/// `database_index` returns -1 or a valid index carrying the name.
pub proof fn lemma_database_index_bounds(dbs: Seq<Database>, name: Seq<char>)
    ensures
        database_index(dbs, name) == -1 ==> forall|i: int|
            0 <= i < dbs.len() ==> dbs[i].name@ != name,
        database_index(dbs, name) != -1 ==> {
            &&& 0 <= database_index(dbs, name) < dbs.len()
            &&& dbs[database_index(dbs, name)].name@ == name
        },
    decreases dbs.len(),
{
    if dbs.len() > 0 && dbs[0].name@ != name {
        lemma_database_index_bounds(dbs.drop_first(), name);
        assert(forall|i: int| 1 <= i < dbs.len() ==> dbs[i] == dbs.drop_first()[i - 1]);
    }
}

/// The table handle `(db_name, table_name)` resolves to against `dbs`:
/// the database first, then the table within it.
pub open spec fn spec_resolve(dbs: Seq<Database>, db_name: Seq<char>, table_name: Seq<char>) -> Result<
    Arc<Table>,
    EngineError,
> {
    let i = database_index(dbs, db_name);
    if i == -1 {
        Err(EngineError::NotFound)
    } else {
        lookup_table(dbs[i].tables@, table_name)
    }
}

/// The query-scoped execution context: the registered databases, in
/// registration order; the first database of a name wins lookup.
#[derive(Debug)]
pub struct Context {
    pub databases: Vec<Database>,
}

impl Context {
    /// A fresh context with no databases.
    pub fn create() -> (r: Context)
        ensures
            r.databases@ == Seq::<Database>::empty(),
    {
        Context { databases: Vec::new() }
    }

    /// Registers a database.
    pub fn add_database(&mut self, database: Database) -> (r: Result<(), EngineError>)
        ensures
            r matches Ok(_),
            final(self).databases@ == old(self).databases@.push(database),
    {
        self.databases.push(database);
        Ok(())
    }

    /// Resolves `(db_name, table_name)` to a shared table handle.
    pub fn table(&self, db_name: &str, table_name: &str) -> (r: Result<Arc<Table>, EngineError>)
        ensures
            r == spec_resolve(self.databases@, db_name@, table_name@),
    {
        let key: String = db_name.to_string();
        let ghost dbs = self.databases@;
        let n = self.databases.len();
        for j in 0..n
            invariant
                key@ == db_name@,
                n == dbs.len(),
                dbs == self.databases@,
                forall|k: int| 0 <= k < j ==> dbs[k].name@ != db_name@,
        {
            if self.databases[j].name == key {
                proof {
                    lemma_database_index_skip(dbs, db_name@, j as int);
                }
                return self.databases[j].get_table(table_name);
            }
        }
        proof {
            lemma_database_index_bounds(dbs, db_name@);
        }
        Err(EngineError::NotFound)
    }
}

} // verus!
