//! The values that a scan is configured with and the records it produces.

use vstd::prelude::*;

verus! {

/// A point in time, counted from the Unix epoch.
#[derive(Clone, Copy, Debug, PartialEq, Eq, Structural)]
pub struct Timestamp {
    pub secs: i64,
    pub nanos: u32,
}

/// What a metadata fetch reports of a file.
#[derive(Clone, Copy, Debug, PartialEq, Eq, Structural)]
pub struct FileMeta {
    pub size: u64,
    pub modified: Option<Timestamp>,
}

/// The mathematical value of a [`DiscoveredFile`].
pub struct Record {
    pub path: Seq<u8>,
    pub size: u64,
    pub modified: Option<Timestamp>,
}

/// One qualifying file: its path, its size in bytes and, where the file system
/// reports one, the time of its last modification.
#[derive(Clone, Debug)]
pub struct DiscoveredFile {
    pub path: Vec<u8>,
    pub size: u64,
    pub modified: Option<Timestamp>,
}

impl View for DiscoveredFile {
    type V = Record;

    open spec fn view(&self) -> Record {
        Record { path: self.path@, size: self.size, modified: self.modified }
    }
}

/// The records that a list of files stands for, in the same order.
pub open spec fn records(files: Seq<DiscoveredFile>) -> Seq<Record> {
    files.map_values(|f: DiscoveredFile| f@)
}

/// The settings of one scan.
#[derive(Clone, Debug)]
pub struct ScanConfig {
    pub roots: Vec<String>,
    pub concurrency: usize,
    pub follow_symlinks: bool,
}

/// Calls `num_cpus::get`, the number of logical processors that this
/// process may use. It depends on the machine; it is never below one.
#[verifier::external_body]
fn cpu_count() -> (n: usize)
    ensures
        n >= 1,
{
    num_cpus::get()
}

/// The concurrency for a machine with `cpus` processors: four fetches per
/// processor, at least one, and no more than fits the type.
pub open spec fn concurrency_for_spec(cpus: usize) -> usize {
    if cpus == 0 {
        1
    } else if cpus > usize::MAX / 4 {
        usize::MAX
    } else {
        (cpus * 4) as usize
    }
}

/// Computes the default concurrency from a processor count.
pub fn concurrency_for(cpus: usize) -> (n: usize)
    ensures
        n == concurrency_for_spec(cpus),
        n >= 1,
{
    if cpus == 0 {
        1
    } else if cpus > usize::MAX / 4 {
        usize::MAX
    } else {
        cpus * 4
    }
}

/// The default concurrency on this machine.
pub fn default_concurrency() -> (n: usize)
    ensures
        n >= 4,
        exists|cpus: usize| cpus >= 1 && n == concurrency_for_spec(cpus),
{
    let cpus: usize = cpu_count();
    concurrency_for(cpus)
}

impl ScanConfig {
    /// A configuration is well formed when it names at least one root and
    /// allows at least one metadata fetch at a time.
    pub open spec fn wf(&self) -> bool {
        &&& self.roots@.len() >= 1
        &&& self.concurrency >= 1
    }

    /// Builds a configuration: without roots the current directory is
    /// scanned, and a concurrency of zero is raised to one.
    pub fn new(roots: Vec<String>, concurrency: usize, follow_symlinks: bool) -> (c: Self)
        ensures
            c.wf(),
            c.follow_symlinks == follow_symlinks,
            c.concurrency == if concurrency == 0 { 1usize } else { concurrency },
            roots@.len() > 0 ==> c.roots == roots,
            roots@.len() == 0 ==> c.roots@.len() == 1 && c.roots@[0]@ == "."@,
    {
        let mut roots = roots;
        if roots.len() == 0 {
            roots.push(".".to_owned());
        }
        let concurrency: usize = if concurrency == 0 { 1 } else { concurrency };
        ScanConfig { roots, concurrency, follow_symlinks }
    }
}

} // verus!
