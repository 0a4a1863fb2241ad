//! Partitions: immutable descriptors of one unit of scan work.

use vstd::prelude::*;

verus! {

/// One unit of table scan work, identified by a name (e.g. a shard or
/// file path) and a version/snapshot tag. Immutable once constructed;
/// identity is the `(name, version)` pair.
#[derive(Debug)]
pub struct Partition {
    pub name: String,
    pub version: u64,
}

/// The partition list a source processor is assigned.
pub type Partitions = Vec<Partition>;

impl Partition {
    /// Builds a partition descriptor.
    pub fn create(name: &str, version: u64) -> (r: Partition)
        ensures
            r.name@ == name@,
            r.version == version,
    {
        Partition { name: name.to_string(), version }
    }
}

impl Clone for Partition {
    /// A clone carries the same name and version.
    fn clone(&self) -> (r: Self)
        ensures
            r == *self,
    {
        Partition { name: self.name.clone(), version: self.version }
    }
}

} // verus!
