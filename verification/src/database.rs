//! The database registry: named tables, added once, looked up by name.
//!
//! The registry exclusively owns insertion; lookups hand out read-only
//! shared handles. Adding a table under a name already present
//! overwrites the earlier table — one policy, stated in the contract
//! and relied on by every caller. Looking up an absent name is a
//! `NotFound` error, never a default.

use std::sync::Arc;

use vstd::pervasive::VecAdditionalExecFns;
use vstd::prelude::*;

use crate::datastreams::clone_arc;
use crate::error::EngineError;
use crate::table::Table;

verus! {

/// The index of the first table of `ts` named `name`, or -1 if none is.
pub open spec fn table_index(ts: Seq<Arc<Table>>, name: Seq<char>) -> int
    decreases ts.len(),
{
    if ts.len() == 0 {
        -1
    } else if (*ts[0]).name@ == name {
        0
    } else {
        let rest = table_index(ts.drop_first(), name);
        if rest == -1 {
            -1
        } else {
            rest + 1
        }
    }
}

/// `table_index` returns -1 or a valid index whose table carries the name.
pub proof fn lemma_table_index_bounds(ts: Seq<Arc<Table>>, name: Seq<char>)
    ensures
        table_index(ts, name) == -1 ==> forall|i: int|
            0 <= i < ts.len() ==> (*ts[i]).name@ != name,
        table_index(ts, name) != -1 ==> {
            &&& 0 <= table_index(ts, name) < ts.len()
            &&& (*ts[table_index(ts, name)]).name@ == name
            &&& forall|i: int| 0 <= i < table_index(ts, name) ==> (*ts[i]).name@ != name
        },
    decreases ts.len(),
{
    if ts.len() > 0 && (*ts[0]).name@ != name {
        lemma_table_index_bounds(ts.drop_first(), name);
        assert(forall|i: int| 1 <= i < ts.len() ==> ts[i] == ts.drop_first()[i - 1]);
    }
}

/// If every table before `k` misses the name and table `k` carries it,
/// `k` is the first index carrying it.
proof fn lemma_table_index_skip(ts: Seq<Arc<Table>>, name: Seq<char>, k: int)
    requires
        0 <= k < ts.len(),
        forall|j: int| 0 <= j < k ==> (*ts[j]).name@ != name,
        (*ts[k]).name@ == name,
    ensures
        table_index(ts, name) == k,
    decreases k,
{
    if k > 0 {
        assert(forall|j: int| 0 <= j < k - 1 ==> ts.drop_first()[j] == ts[j + 1]);
        assert(ts.drop_first()[k - 1] == ts[k]);
        lemma_table_index_skip(ts.drop_first(), name, k - 1);
    }
}

/// The registry after adding `t`: the first table of `t`'s name is
/// replaced, or `t` is appended if the name is new.
pub open spec fn upsert_table(ts: Seq<Arc<Table>>, t: Arc<Table>) -> Seq<Arc<Table>> {
    let i = table_index(ts, (*t).name@);
    if i == -1 {
        ts.push(t)
    } else {
        ts.update(i, t)
    }
}

/// The outcome of looking `name` up: the first table carrying it, or
/// `NotFound` if none does.
pub open spec fn lookup_table(ts: Seq<Arc<Table>>, name: Seq<char>) -> Result<
    Arc<Table>,
    EngineError,
> {
    let i = table_index(ts, name);
    if i == -1 {
        Err(EngineError::NotFound)
    } else {
        Ok(ts[i])
    }
}

/// After adding a table, looking its name up returns exactly that
/// table: the second add under one name wins.
pub proof fn lemma_add_then_get(ts: Seq<Arc<Table>>, t: Arc<Table>)
    ensures
        lookup_table(upsert_table(ts, t), (*t).name@) == Ok::<Arc<Table>, EngineError>(t),
{
    let name = (*t).name@;
    let i = table_index(ts, name);
    lemma_table_index_bounds(ts, name);
    if i == -1 {
        assert(ts.push(t)[ts.len() as int] == t);
        lemma_table_index_skip(ts.push(t), name, ts.len() as int);
    } else {
        assert(forall|j: int| 0 <= j < i ==> ts.update(i, t)[j] == ts[j]);
        assert(ts.update(i, t)[i] == t);
        lemma_table_index_skip(ts.update(i, t), name, i);
    }
}

/// A name carried by no table of the registry looks up to `NotFound`,
/// and no table handle is returned.
pub proof fn lemma_get_table_absent(ts: Seq<Arc<Table>>, name: Seq<char>)
    requires
        forall|i: int| 0 <= i < ts.len() ==> (*ts[i]).name@ != name,
    ensures
        lookup_table(ts, name) == Err::<Arc<Table>, EngineError>(EngineError::NotFound),
{
    lemma_table_index_bounds(ts, name);
    if table_index(ts, name) != -1 {
        assert((*ts[table_index(ts, name)]).name@ == name);
    }
}

/// What a database offers: a name, table insertion, and table lookup by
/// exact name.
pub trait IDatabase: Sized {
    /// The database's name.
    spec fn spec_name(&self) -> Seq<char>;

    /// The registered tables, in registration order.
    spec fn spec_tables(&self) -> Seq<Arc<Table>>;

    /// The database's name.
    fn name(&self) -> (r: &str)
        ensures
            r@ == self.spec_name(),
    ;

    /// Registers `table` under its own name, overwriting any table
    /// already registered under that name.
    fn add_table(&mut self, table: Arc<Table>) -> (r: Result<(), EngineError>)
        ensures
            r matches Ok(_) ==> {
                &&& final(self).spec_tables() == upsert_table(old(self).spec_tables(), table)
                &&& final(self).spec_name() == old(self).spec_name()
            },
            r matches Err(_) ==> *final(self) == *old(self),
    ;

    /// Looks a table up by exact name.
    fn get_table(&self, table_name: &str) -> (r: Result<Arc<Table>, EngineError>)
        ensures
            r == lookup_table(self.spec_tables(), table_name@),
    ;
}

/// The in-memory database registry.
#[derive(Debug)]
pub struct Database {
    pub name: String,
    pub tables: Vec<Arc<Table>>,
}

impl Database {
    /// A fresh database with no tables.
    pub fn create(name: &str) -> (r: Database)
        ensures
            r.name@ == name@,
            r.tables@ == Seq::<Arc<Table>>::empty(),
    {
        Database { name: name.to_string(), tables: Vec::new() }
    }
}

impl IDatabase for Database {
    open spec fn spec_name(&self) -> Seq<char> {
        self.name@
    }

    open spec fn spec_tables(&self) -> Seq<Arc<Table>> {
        self.tables@
    }

    fn name(&self) -> (r: &str) {
        self.name.as_str()
    }

    /// Never fails; a duplicate name overwrites the earlier table.
    fn add_table(&mut self, table: Arc<Table>) -> (r: Result<(), EngineError>)
        ensures
            r matches Ok(_),
    {
        match self.find_table(&table.name) {
            Some(j) => {
                self.tables.set(j, table);
            },
            None => {
                self.tables.push(table);
            },
        }
        Ok(())
    }

    fn get_table(&self, table_name: &str) -> (r: Result<Arc<Table>, EngineError>) {
        let key: String = table_name.to_string();
        match self.find_table(&key) {
            Some(j) => Ok(clone_arc(&self.tables[j])),
            None => Err(EngineError::NotFound),
        }
    }
}

impl Database {
    /// The index of the first table named `name`, if any is.
    fn find_table(&self, name: &String) -> (r: Option<usize>)
        ensures
            match r {
                Some(j) => j == table_index(self.tables@, name@) && j < self.tables@.len(),
                None => table_index(self.tables@, name@) == -1,
            },
    {
        let ghost ts = self.tables@;
        let n = self.tables.len();
        for j in 0..n
            invariant
                n == ts.len(),
                ts == self.tables@,
                forall|k: int| 0 <= k < j ==> (*ts[k]).name@ != name@,
        {
            if self.tables[j].name == *name {
                proof {
                    lemma_table_index_skip(ts, name@, j as int);
                }
                return Some(j);
            }
        }
        proof {
            lemma_table_index_bounds(ts, name@);
        }
        None
    }
}

} // verus!
