//! The decisions of a tree walker: how each root is walked, which entries
//! deserve a metadata fetch, and what a fetch turns into.

use vstd::prelude::*;
use crate::collector::Message;
use crate::filter::{has_rar_extension, is_rar_path};
use crate::record::{DiscoveredFile, FileMeta, Record, ScanConfig, records};
use crate::throttle::{Permit, Throttle};

verus! {

/// What kind of file-system entry the walker met.
#[derive(Clone, Copy, Debug, PartialEq, Eq, Structural)]
pub enum EntryKind {
    Directory,
    File,
    Symlink,
    Other,
}

/// One entry that the walker reached, under the path by which it reached it.
#[derive(Clone, Debug)]
pub struct Visit {
    pub path: Vec<u8>,
    pub kind: EntryKind,
}

/// What the walker hands over for one step of its traversal.
#[derive(Clone, Debug)]
pub enum WalkEvent {
    /// An entry that was read.
    Entry(Visit),
    /// An entry or a directory that could not be read.
    Failed,
}

/// What to do with an entry.
#[derive(Clone, Copy, Debug, PartialEq, Eq, Structural)]
pub enum Step {
    /// Pass over the entry: it is not what the scan looks for.
    Skip,
    /// Fetch the entry's metadata, under a permit of the throttle.
    FetchMetadata,
    /// Pass over the entry and count it: it could not be read.
    CountSkipped,
}

/// How one root is to be walked.
#[derive(Clone, Debug)]
pub struct WalkPlan {
    /// The directory at which the walk starts.
    pub root: String,
    /// Whether the walk descends through symbolic links.
    pub follow_links: bool,
    /// Whether dot-prefixed entries are left out.
    pub skip_hidden: bool,
    /// Whether the ignore files of the repository are honoured.
    pub git_ignore: bool,
    /// Whether the machine-wide ignore file is honoured.
    pub git_global: bool,
    /// Whether the repository's private exclude file is honoured.
    pub git_exclude: bool,
}

/// The plan for the root `root` under a scan that follows symbolic links or
/// not: hidden entries take part, all ignore rules are honoured.
pub open spec fn plan_matches(plan: WalkPlan, root: String, follow_symlinks: bool) -> bool {
    &&& plan.root == root
    &&& plan.follow_links == follow_symlinks
    &&& !plan.skip_hidden
    &&& plan.git_ignore
    &&& plan.git_global
    &&& plan.git_exclude
}

/// Whether `plans` holds one plan for each root of `config`, in the order of
/// the roots.
pub open spec fn planned(plans: Seq<WalkPlan>, config: ScanConfig) -> bool {
    &&& plans.len() == config.roots@.len()
    &&& forall|i: int|
        0 <= i < plans.len() ==> plan_matches(
            #[trigger] plans[i],
            config.roots@[i],
            config.follow_symlinks,
        )
}

/// Lays out one walk per configured root, in the order of the roots.
pub fn plan_walks(config: &ScanConfig) -> (plans: Vec<WalkPlan>)
    ensures
        planned(plans@, *config),
{
    let mut plans: Vec<WalkPlan> = Vec::new();
    let mut i: usize = 0;
    while i < config.roots.len()
        invariant
            0 <= i <= config.roots@.len(),
            plans@.len() == i,
            forall|j: int|
                0 <= j < i ==> plan_matches(
                    #[trigger] plans@[j],
                    config.roots@[j],
                    config.follow_symlinks,
                ),
        decreases config.roots@.len() - i,
    {
        plans.push(
            WalkPlan {
                root: config.roots[i].clone(),
                follow_links: config.follow_symlinks,
                skip_hidden: false,
                git_ignore: true,
                git_global: true,
                git_exclude: true,
            },
        );
        i += 1;
    }
    plans
}

/// Whether a walk can start at a root: only where the root is there and is
/// a directory. A root that is missing, unreadable or no directory fails its
/// own walk and no other.
pub fn root_opens(kind: Option<EntryKind>) -> (opens: bool)
    ensures
        opens == (kind == Some(EntryKind::Directory)),
{
    match kind {
        Some(EntryKind::Directory) => true,
        _ => false,
    }
}

/// An event qualifies when it is a regular file whose name has the wanted
/// extension. Directories, symbolic links that were not followed, other
/// entries and failures never qualify.
pub open spec fn qualifies(event: WalkEvent) -> bool {
    match event {
        WalkEvent::Entry(v) => v.kind == EntryKind::File && is_rar_path(v.path@),
        WalkEvent::Failed => false,
    }
}

/// Decides what to do with one event of the walker.
pub fn decide(event: &WalkEvent) -> (step: Step)
    ensures
        step == (if qualifies(*event) {
            Step::FetchMetadata
        } else if *event is Failed {
            Step::CountSkipped
        } else {
            Step::Skip
        }),
{
    match event {
        WalkEvent::Entry(v) => {
            match v.kind {
                EntryKind::File => {
                    if has_rar_extension(v.path.as_slice()) {
                        Step::FetchMetadata
                    } else {
                        Step::Skip
                    }
                },
                _ => Step::Skip,
            }
        },
        WalkEvent::Failed => Step::CountSkipped,
    }
}

/// The record that a fetch gives for `path`: none where the fetch failed.
pub open spec fn fetched_record(path: Seq<u8>, meta: Option<FileMeta>) -> Option<Record> {
    match meta {
        Some(m) => Some(Record { path: path, size: m.size, modified: m.modified }),
        None => None,
    }
}

/// Turns the outcome of a metadata fetch into a record. A failed fetch gives
/// none: the candidate is dropped. The fetch runs under a permit of the
/// throttle, which the caller shows here and hands back afterwards.
pub fn record_fetch(permit: &Permit, path: Vec<u8>, meta: Option<FileMeta>) -> (found: Option<
    DiscoveredFile,
>)
    ensures
        match found {
            Some(f) => fetched_record(path@, meta) == Some(f@),
            None => fetched_record(path@, meta).is_none(),
        },
{
    match meta {
        Some(m) => Some(DiscoveredFile { path, size: m.size, modified: m.modified }),
        None => None,
    }
}

/// The message that tells the collector of a fetch: the record where there
/// is one, and a passed-over entry where the fetch failed.
pub fn message_for(found: Option<DiscoveredFile>) -> (msg: Message)
    ensures
        msg == (match found {
            Some(f) => Message::Found(f),
            None => Message::Skipped,
        }),
{
    match found {
        Some(f) => Message::Found(f),
        None => Message::Skipped,
    }
}

/// One event of a walk together with what a metadata fetch for that entry
/// returns; the fetch is consulted only for qualifying entries.
#[derive(Clone, Debug)]
pub struct Observation {
    pub event: WalkEvent,
    pub meta: Option<FileMeta>,
}

/// The record that one observation contributes, if any.
pub open spec fn yield_of(o: Observation) -> Option<Record> {
    match o.event {
        WalkEvent::Entry(v) => if qualifies(o.event) {
            fetched_record(v.path@, o.meta)
        } else {
            None
        },
        WalkEvent::Failed => None,
    }
}

/// The records of a walk: what each observation contributes, in the order
/// of the observations.
pub open spec fn harvest_spec(obs: Seq<Observation>) -> Seq<Record>
    decreases obs.len(),
{
    if obs.len() == 0 {
        Seq::empty()
    } else {
        match yield_of(obs.last()) {
            Some(r) => harvest_spec(obs.drop_last()).push(r),
            None => harvest_spec(obs.drop_last()),
        }
    }
}

/// Whether an observation is of an entry that was passed over because it
/// could not be read: a failure of the walker, or a qualifying file whose
/// metadata could not be fetched.
pub open spec fn is_skipped(o: Observation) -> bool {
    o.event is Failed || (qualifies(o.event) && o.meta.is_none())
}

/// How many entries of a walk were passed over because they could not be
/// read.
pub open spec fn skipped_in(obs: Seq<Observation>) -> nat
    decreases obs.len(),
{
    if obs.len() == 0 {
        0
    } else {
        skipped_in(obs.drop_last()) + if is_skipped(obs.last()) {
            1nat
        } else {
            0nat
        }
    }
}

/// What a walk brought in.
#[derive(Debug)]
pub struct Harvest {
    /// The records of the qualifying files, in the order of the walk.
    pub files: Vec<DiscoveredFile>,
    /// How many entries were passed over because they could not be read.
    pub skipped: usize,
}

/// Runs the walker's decisions over a finished walk, one fetch at a time,
/// and returns the records it produces and the number of entries that could
/// not be read.
pub fn harvest(obs: &Vec<Observation>) -> (out: Harvest)
    ensures
        records(out.files@) == harvest_spec(obs@),
        out.skipped == skipped_in(obs@),
{
    let mut gate = Throttle::new(1);
    let mut found: Vec<DiscoveredFile> = Vec::new();
    let mut skipped: usize = 0;
    let mut i: usize = 0;
    assert(records(found@) =~= harvest_spec(obs@.subrange(0, 0)));
    while i < obs.len()
        invariant
            0 <= i <= obs@.len(),
            gate.wf(),
            gate.held() == 0,
            records(found@) == harvest_spec(obs@.subrange(0, i as int)),
            skipped == skipped_in(obs@.subrange(0, i as int)),
            skipped <= i,
        decreases obs@.len() - i,
    {
        let ghost before = obs@.subrange(0, i as int);
        let ghost upto = obs@.subrange(0, i + 1);
        assert(upto.drop_last() =~= before);
        assert(upto.last() == obs@[i as int]);
        let o = &obs[i];
        match decide(&o.event) {
            Step::FetchMetadata => {
                if let WalkEvent::Entry(v) = &o.event {
                    let ghost old_found = found@;
                    if let Some(permit) = gate.try_acquire() {
                        let fetched = record_fetch(&permit, v.path.clone(), o.meta);
                        gate.release(permit);
                        match fetched {
                            Some(f) => {
                                found.push(f);
                                assert(records(found@) =~= records(old_found).push(f@));
                            },
                            None => {
                                skipped += 1;
                            },
                        }
                    }
                }
            },
            Step::CountSkipped => {
                skipped += 1;
            },
            Step::Skip => {},
        }
        i += 1;
    }
    assert(obs@.subrange(0, i as int) =~= obs@);
    Harvest { files: found, skipped }
}

/// The records of two walks, one after the other, are the records of the
/// first followed by those of the second: nothing is lost and nothing is
/// added when walks are put together.
pub proof fn lemma_harvest_concat(a: Seq<Observation>, b: Seq<Observation>)
    ensures
        harvest_spec(a + b) == harvest_spec(a) + harvest_spec(b),
    decreases b.len(),
{
    if b.len() == 0 {
        assert(a + b =~= a);
        assert(harvest_spec(a) + harvest_spec(b) =~= harvest_spec(a));
    } else {
        lemma_harvest_concat(a, b.drop_last());
        assert((a + b).drop_last() =~= a + b.drop_last());
        assert((a + b).last() == b.last());
        match yield_of(b.last()) {
            Some(r) => {
                assert(harvest_spec(a + b) =~= harvest_spec(a) + harvest_spec(b));
            },
            None => {},
        }
    }
}

/// How the roots are walked does not depend on the concurrency: two
/// configurations with the same roots and the same symlink policy are
/// walked by the same plans.
pub proof fn lemma_plans_ignore_concurrency(
    c1: ScanConfig,
    c2: ScanConfig,
    first: Seq<WalkPlan>,
    second: Seq<WalkPlan>,
)
    requires
        c1.roots@ == c2.roots@,
        c1.follow_symlinks == c2.follow_symlinks,
        planned(first, c1),
        planned(second, c2),
    ensures
        first == second,
{
    assert forall|i: int| 0 <= i < first.len() implies first[i] == second[i] by {
        assert(plan_matches(first[i], c1.roots@[i], c1.follow_symlinks));
        assert(plan_matches(second[i], c2.roots@[i], c2.follow_symlinks));
    }
    assert(first =~= second);
}

/// Only a regular file can contribute a record. A symbolic link that the
/// walker did not follow, a directory, any other entry and a failure
/// contribute none, whatever their name and whatever a fetch would return.
pub proof fn lemma_only_files_yield(o: Observation)
    ensures
        yield_of(o).is_some() ==> (o.event matches WalkEvent::Entry(v) && v.kind == EntryKind::File
            && is_rar_path(v.path@) && o.meta.is_some()),
        o.event matches WalkEvent::Entry(v) && v.kind == EntryKind::Symlink ==> yield_of(
            o,
        ).is_none(),
{
}

/// Every record of a walk belongs to an observation of a regular file with
/// the wanted extension, and carries what the fetch for it returned.
pub proof fn lemma_harvest_sound(obs: Seq<Observation>, k: int)
    requires
        0 <= k < harvest_spec(obs).len(),
    ensures
        exists|i: int| 0 <= i < obs.len() && yield_of(#[trigger] obs[i]) == Some(harvest_spec(obs)[k]),
        is_rar_path(harvest_spec(obs)[k].path),
    decreases obs.len(),
{
    if obs.len() > 0 {
        let rest = obs.drop_last();
        match yield_of(obs.last()) {
            Some(r) => {
                if k < harvest_spec(rest).len() {
                    lemma_harvest_sound(rest, k);
                    let i = choose|i: int|
                        0 <= i < rest.len() && yield_of(#[trigger] rest[i]) == Some(
                            harvest_spec(rest)[k],
                        );
                    assert(obs[i] == rest[i]);
                } else {
                    assert(yield_of(obs[obs.len() - 1]) == Some(harvest_spec(obs)[k]));
                    lemma_only_files_yield(obs.last());
                }
            },
            None => {
                lemma_harvest_sound(rest, k);
                let i = choose|i: int|
                    0 <= i < rest.len() && yield_of(#[trigger] rest[i]) == Some(
                        harvest_spec(rest)[k],
                    );
                assert(obs[i] == rest[i]);
            },
        }
    }
}

} // verus!
