//! The source processor: the terminal stage of a pipeline chain.
//!
//! A source transform holds everything it needs to run — a context
//! handle, a database name, a table name, and its assigned partition
//! list. Executing it binds that configuration to a live stream: it
//! resolves the table through the context and opens a pass-through
//! stream over the assigned partitions, contributing no transformation
//! of its own. A source has no upstream, so linking one onto it is an
//! `Unimplemented` usage error.

use std::sync::Arc;

use vstd::prelude::*;

use crate::context::{spec_resolve, Context};
use crate::datablocks::DataBlock;
use crate::datastreams::DataBlockStream;
use crate::error::EngineError;
use crate::partition::Partition;
use crate::table::{lemma_read_deterministic, spec_read};

verus! {

/// A pipeline stage that pulls raw batches straight from a table.
#[derive(Debug)]
pub struct SourceTransform {
    pub ctx: Context,
    pub db: String,
    pub table: String,
    pub partitions: Vec<Partition>,
}

/// The stream a source transform's execution yields: the table is
/// resolved by `(db, table)` through the context, then read over the
/// assigned partitions.
pub open spec fn spec_execute(s: SourceTransform) -> Result<Seq<Arc<DataBlock>>, EngineError> {
    match spec_resolve(s.ctx.databases@, s.db@, s.table@) {
        Err(e) => Err(e),
        Ok(t) => spec_read(*t, s.partitions@),
    }
}

impl SourceTransform {
    /// Builds a source transform over its full run configuration.
    pub fn create(ctx: Context, db: &str, table: &str, partitions: Vec<Partition>) -> (r:
        SourceTransform)
        ensures
            r.ctx == ctx,
            r.db@ == db@,
            r.table@ == table@,
            r.partitions@ == partitions@,
    {
        SourceTransform { ctx, db: db.to_string(), table: table.to_string(), partitions }
    }

    /// The stage's stable diagnostic name.
    pub fn name(&self) -> (r: &'static str)
        ensures
            r@ == "SourceTransform"@,
    {
        "SourceTransform"
    }

    /// A source has no upstream: linking one onto it always fails with
    /// `Unimplemented` and leaves the stage untouched.
    pub fn connect_to(&mut self, _upstream: &SourceTransform) -> (r: Result<(), EngineError>)
        ensures
            r == Err::<(), EngineError>(EngineError::Unimplemented),
            *final(self) == *old(self),
    {
        Err(EngineError::Unimplemented)
    }

    /// Resolves the table and opens the stream of its batches over the
    /// assigned partitions; the stream is a pure function of the
    /// stage's configuration, so repeated executions yield equivalent
    /// streams.
    pub fn execute(&self) -> (r: Result<DataBlockStream, EngineError>)
        ensures
            match r {
                Ok(s) => {
                    &&& spec_execute(*self) == Ok::<Seq<Arc<DataBlock>>, EngineError>(s.blocks@)
                    &&& s.cursor == 0
                },
                Err(e) => spec_execute(*self) == Err::<Seq<Arc<DataBlock>>, EngineError>(e),
            },
    {
        let table = match self.ctx.table(self.db.as_str(), self.table.as_str()) {
            Ok(t) => t,
            Err(e) => {
                return Err(e);
            },
        };
        table.read(&self.partitions)
    }
}

/// Executing equally configured source transforms yields equal
/// streams: resolution and reading are pure functions of the
/// configuration, so repeated reads of the same partition list are
/// deterministic and side-effect free.
pub proof fn lemma_execute_deterministic(s1: SourceTransform, s2: SourceTransform)
    requires
        s1.ctx == s2.ctx,
        s1.db@ == s2.db@,
        s1.table@ == s2.table@,
        s1.partitions@.len() == s2.partitions@.len(),
        forall|i: int|
            0 <= i < s1.partitions@.len() ==> (#[trigger] s1.partitions@[i]).name@
                == s2.partitions@[i].name@ && s1.partitions@[i].version
                == s2.partitions@[i].version,
    ensures
        spec_execute(s1) == spec_execute(s2),
{
    let r = spec_resolve(s1.ctx.databases@, s1.db@, s1.table@);
    if r is Ok {
        let tbl = *r.unwrap();
        lemma_read_deterministic(tbl, s1.partitions@, s2.partitions@);
    }
}

} // verus!
