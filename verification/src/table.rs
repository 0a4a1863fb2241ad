//! Tables: named, schema-bearing holders of partitioned batch data.
//!
//! A table maps each of its partitions to one batch. Reading a
//! partition list opens a stream with one batch per requested
//! partition, in request order; an unknown partition is an error, not a
//! retry. Reading is a pure function of the table and the requested
//! `(name, version)` pairs, so the same list always yields the same
//! stream.

use std::sync::Arc;

use vstd::prelude::*;

use crate::datablocks::DataBlock;
use crate::datastreams::{clone_arc, DataBlockStream};
use crate::datavalues::DataSchema;
use crate::error::EngineError;
use crate::partition::Partition;

verus! {

/// One partition of a table together with its batch of rows.
#[derive(Debug)]
pub struct TablePart {
    pub partition: Partition,
    pub block: Arc<DataBlock>,
}

/// A named table: a schema and the batches of its partitions.
#[derive(Debug)]
pub struct Table {
    pub name: String,
    pub schema: DataSchema,
    pub parts: Vec<TablePart>,
}

/// The index of the first entry of `parts` keyed by `(name, version)`,
/// or -1 if none is.
pub open spec fn part_index(parts: Seq<TablePart>, name: Seq<char>, version: u64) -> int
    decreases parts.len(),
{
    if parts.len() == 0 {
        -1
    } else if parts[0].partition.name@ == name && parts[0].partition.version == version {
        0
    } else {
        let rest = part_index(parts.drop_first(), name, version);
        if rest == -1 {
            -1
        } else {
            rest + 1
        }
    }
}

/// `part_index` returns -1 or a valid index carrying the key.
pub proof fn lemma_part_index_bounds(parts: Seq<TablePart>, name: Seq<char>, version: u64)
    ensures
        part_index(parts, name, version) == -1 ==> forall|i: int|
            0 <= i < parts.len() ==> !(parts[i].partition.name@ == name && parts[i].partition.version
                == version),
        part_index(parts, name, version) != -1 ==> {
            &&& 0 <= part_index(parts, name, version) < parts.len()
            &&& parts[part_index(parts, name, version)].partition.name@ == name
            &&& parts[part_index(parts, name, version)].partition.version == version
        },
    decreases parts.len(),
{
    if parts.len() > 0 && !(parts[0].partition.name@ == name && parts[0].partition.version
        == version) {
        lemma_part_index_bounds(parts.drop_first(), name, version);
        assert(forall|i: int| 1 <= i < parts.len() ==> parts[i] == parts.drop_first()[i - 1]);
    }
}

/// If every entry before `k` misses the key and entry `k` carries it,
/// `k` is the first index carrying it.
proof fn lemma_part_index_skip(parts: Seq<TablePart>, name: Seq<char>, version: u64, k: int)
    requires
        0 <= k < parts.len(),
        forall|j: int|
            0 <= j < k ==> !(parts[j].partition.name@ == name && parts[j].partition.version
                == version),
        parts[k].partition.name@ == name,
        parts[k].partition.version == version,
    ensures
        part_index(parts, name, version) == k,
    decreases k,
{
    if k > 0 {
        assert(forall|j: int| 0 <= j < k - 1 ==> parts.drop_first()[j] == parts[j + 1]);
        assert(parts.drop_first()[k - 1] == parts[k]);
        lemma_part_index_skip(parts.drop_first(), name, version, k - 1);
    }
}

/// Whether every requested partition resolves in `t`.
pub open spec fn all_parts_found(t: Table, ps: Seq<Partition>) -> bool {
    forall|i: int|
        0 <= i < ps.len() ==> part_index(t.parts@, (#[trigger] ps[i]).name@, ps[i].version) != -1
}

/// The batches a read of `ps` against `t` yields: the batch of each
/// requested partition, in request order; an unknown partition fails
/// the whole read with `NotFound`.
pub open spec fn spec_read(t: Table, ps: Seq<Partition>) -> Result<
    Seq<Arc<DataBlock>>,
    EngineError,
> {
    if all_parts_found(t, ps) {
        Ok(
            Seq::new(
                ps.len(),
                |i: int| t.parts@[part_index(t.parts@, ps[i].name@, ps[i].version)].block,
            ),
        )
    } else {
        Err(EngineError::NotFound)
    }
}

/// Reading the same `(name, version)` pairs against the same table
/// yields the same batches: reads are deterministic and side-effect
/// free.
pub proof fn lemma_read_deterministic(t: Table, ps1: Seq<Partition>, ps2: Seq<Partition>)
    requires
        ps1.len() == ps2.len(),
        forall|i: int|
            0 <= i < ps1.len() ==> (#[trigger] ps1[i]).name@ == ps2[i].name@ && ps1[i].version
                == ps2[i].version,
    ensures
        spec_read(t, ps1) == spec_read(t, ps2),
{
    if all_parts_found(t, ps1) {
        assert forall|i: int|
            0 <= i < ps2.len() implies part_index(
            t.parts@,
            (#[trigger] ps2[i]).name@,
            ps2[i].version,
        ) != -1 by {
            assert(part_index(t.parts@, ps1[i].name@, ps1[i].version) != -1);
        }
    }
    if all_parts_found(t, ps2) {
        assert forall|i: int|
            0 <= i < ps1.len() implies part_index(
            t.parts@,
            (#[trigger] ps1[i]).name@,
            ps1[i].version,
        ) != -1 by {
            assert(part_index(t.parts@, ps2[i].name@, ps2[i].version) != -1);
        }
    }
    if all_parts_found(t, ps1) {
        assert(Seq::new(
            ps1.len(),
            |i: int| t.parts@[part_index(t.parts@, ps1[i].name@, ps1[i].version)].block,
        ) =~= Seq::new(
            ps2.len(),
            |i: int| t.parts@[part_index(t.parts@, ps2[i].name@, ps2[i].version)].block,
        ));
    }
}

/// An empty partition list yields an empty stream, not an error.
pub proof fn lemma_read_empty(t: Table)
    ensures
        spec_read(t, Seq::<Partition>::empty()) == Ok::<Seq<Arc<DataBlock>>, EngineError>(
            Seq::<Arc<DataBlock>>::empty(),
        ),
{
    assert(Seq::new(
        Seq::<Partition>::empty().len(),
        |i: int| t.parts@[part_index(
            t.parts@,
            Seq::<Partition>::empty()[i].name@,
            Seq::<Partition>::empty()[i].version,
        )].block,
    ) =~= Seq::<Arc<DataBlock>>::empty());
}

impl Table {
    /// Every batch held by the table is well-formed.
    pub open spec fn wf(self) -> bool {
        forall|i: int| 0 <= i < self.parts@.len() ==> (*(#[trigger] self.parts@[i]).block).wf()
    }

    /// A fresh table with no partitions.
    pub fn create(name: &str, schema: DataSchema) -> (r: Table)
        ensures
            r.name@ == name@,
            r.schema.fields@ == schema.fields@,
            r.parts@ == Seq::<TablePart>::empty(),
            r.wf(),
    {
        Table { name: name.to_string(), schema, parts: Vec::new() }
    }

    /// The table's name.
    pub fn name(&self) -> (r: &str)
        ensures
            r@ == self.name@,
    {
        self.name.as_str()
    }

    /// Registers the batch of one partition; the batch must be
    /// well-formed.
    pub fn add_part(&mut self, partition: Partition, block: DataBlock) -> (r: Result<
        (),
        EngineError,
    >)
        requires
            old(self).wf(),
        ensures
            match r {
                Ok(_) => {
                    &&& final(self).parts@.len() == old(self).parts@.len() + 1
                    &&& final(self).parts@.last().partition == partition
                    &&& (*final(self).parts@.last().block) == block
                    &&& final(self).parts@.drop_last() == old(self).parts@
                    &&& final(self).name@ == old(self).name@
                    &&& final(self).schema == old(self).schema
                    &&& final(self).wf()
                },
                Err(e) => {
                    &&& e == EngineError::TypeMismatch
                    &&& !block.wf()
                    &&& *final(self) == *old(self)
                },
            },
    {
        if !block.check_wf() {
            return Err(EngineError::TypeMismatch);
        }
        self.parts.push(TablePart { partition, block: Arc::new(block) });
        proof {
            assert(self.parts@.drop_last() =~= old(self).parts@);
        }
        Ok(())
    }

    /// The index of the first stored partition keyed like `p`.
    fn find_part(&self, p: &Partition) -> (r: Option<usize>)
        ensures
            match r {
                Some(i) => i == part_index(self.parts@, p.name@, p.version) && i
                    < self.parts@.len(),
                None => part_index(self.parts@, p.name@, p.version) == -1,
            },
    {
        let ghost parts = self.parts@;
        let n = self.parts.len();
        for i in 0..n
            invariant
                n == parts.len(),
                parts == self.parts@,
                forall|j: int|
                    0 <= j < i ==> !(parts[j].partition.name@ == p.name@ && parts[j].partition.version
                        == p.version),
        {
            if self.parts[i].partition.name == p.name && self.parts[i].partition.version
                == p.version {
                proof {
                    lemma_part_index_skip(parts, p.name@, p.version, i as int);
                }
                return Some(i);
            }
        }
        proof {
            lemma_part_index_bounds(parts, p.name@, p.version);
        }
        None
    }

    /// Opens a stream over the batches of the requested partitions, in
    /// request order; fails with `NotFound` if any partition is unknown.
    pub fn read(&self, partitions: &Vec<Partition>) -> (r: Result<DataBlockStream, EngineError>)
        ensures
            match r {
                Ok(s) => {
                    &&& spec_read(*self, partitions@) == Ok::<Seq<Arc<DataBlock>>, EngineError>(
                        s.blocks@,
                    )
                    &&& s.cursor == 0
                    &&& s.blocks@.len() == partitions@.len()
                },
                Err(e) => spec_read(*self, partitions@) == Err::<Seq<Arc<DataBlock>>, EngineError>(
                    e,
                ),
            },
    {
        let ghost ps = partitions@;
        let n = partitions.len();
        let mut blocks: Vec<Arc<DataBlock>> = Vec::new();
        for i in 0..n
            invariant
                n == ps.len(),
                ps == partitions@,
                blocks@.len() == i,
                forall|k: int|
                    0 <= k < i ==> part_index(self.parts@, (#[trigger] ps[k]).name@, ps[k].version)
                        != -1,
                forall|k: int|
                    0 <= k < i ==> blocks@[k] == self.parts@[part_index(
                        self.parts@,
                        (#[trigger] ps[k]).name@,
                        ps[k].version,
                    )].block,
        {
            match self.find_part(&partitions[i]) {
                Some(j) => {
                    blocks.push(clone_arc(&self.parts[j].block));
                },
                None => {
                    return Err(EngineError::NotFound);
                },
            }
        }
        proof {
            assert(all_parts_found(*self, ps));
            assert(blocks@ =~= Seq::new(
                ps.len(),
                |k: int| self.parts@[part_index(self.parts@, ps[k].name@, ps[k].version)].block,
            ));
        }
        Ok(DataBlockStream::create(blocks))
    }
}

} // verus!
