//! What holds of a whole scan, whatever the number of workers and however
//! their messages reach the collector.

use vstd::prelude::*;
use crate::collector::{
    Collector, Message, ScanOutcome, capped, found_records, is_interleaving,
    lemma_interleaving_is_union,
};
use crate::order::{
    distinct_paths, lemma_sort_ignores_arrival_order, lemma_sort_is_permutation, paths_decide,
    sort_by_path, sort_by_path_spec,
};
use crate::record::{Record, records};
use crate::walker::{Observation, harvest, harvest_spec, skipped_in};

verus! {

/// What became of the walk of one root.
#[derive(Clone, Debug)]
pub enum RootWalk {
    /// The root could not be opened.
    Failed,
    /// The root was walked, and this is what the walker saw.
    Walked(Vec<Observation>),
}

/// The records of a list of walks, root after root.
pub open spec fn observed_records(walks: Seq<RootWalk>) -> Seq<Record>
    decreases walks.len(),
{
    if walks.len() == 0 {
        Seq::empty()
    } else {
        observed_records(walks.drop_last()) + match walks.last() {
            RootWalk::Walked(obs) => harvest_spec(obs@),
            RootWalk::Failed => Seq::empty(),
        }
    }
}

/// How many entries the walks passed over because they could not be read.
pub open spec fn observed_skips(walks: Seq<RootWalk>) -> nat
    decreases walks.len(),
{
    if walks.len() == 0 {
        0
    } else {
        observed_skips(walks.drop_last()) + match walks.last() {
            RootWalk::Walked(obs) => skipped_in(obs@),
            RootWalk::Failed => 0,
        }
    }
}

/// The positions of the walks that failed, in ascending order.
pub open spec fn failed_walks(walks: Seq<RootWalk>) -> Seq<usize>
    decreases walks.len(),
{
    if walks.len() == 0 {
        Seq::empty()
    } else {
        failed_walks(walks.drop_last()) + match walks.last() {
            RootWalk::Walked(_) => Seq::empty(),
            RootWalk::Failed => seq![(walks.len() - 1) as usize],
        }
    }
}

/// Carries out a scan on walks that are over: gathers the records of every
/// root that was walked, notes the roots that failed, and sorts the records
/// by path. A failed root takes nothing from the others.
pub fn scan_observed(walks: &Vec<RootWalk>) -> (out: ScanOutcome)
    ensures
        records(out.files@) == sort_by_path_spec(observed_records(walks@)),
        out.failed_roots@ == failed_walks(walks@),
        out.skipped == capped(observed_skips(walks@)),
        out.complete,
{
    let mut collector = Collector::new(walks.len());
    let mut i: usize = 0;
    assert(collector.collected() =~= observed_records(walks@.subrange(0, 0)));
    assert(collector.failed() =~= failed_walks(walks@.subrange(0, 0)));
    while i < walks.len()
        invariant
            0 <= i <= walks@.len(),
            collector.collected() == observed_records(walks@.subrange(0, i as int)),
            collector.failed() == failed_walks(walks@.subrange(0, i as int)),
            collector.pending() == walks@.len() - i,
            collector.skipped() == capped(observed_skips(walks@.subrange(0, i as int))),
        decreases walks@.len() - i,
    {
        let ghost upto = walks@.subrange(0, i + 1);
        proof {
            assert(upto.drop_last() =~= walks@.subrange(0, i as int));
            assert(upto.last() == walks@[i as int]);
        }
        match &walks[i] {
            RootWalk::Walked(obs) => {
                let found = harvest(obs);
                collector.receive_files(found.files);
                collector.receive_skips(found.skipped);
                collector.receive(Message::RootDone { root: i });
            },
            RootWalk::Failed => {
                collector.receive(Message::RootFailed { root: i });
            },
        }
        proof {
            assert(collector.collected() =~= observed_records(upto));
            assert(collector.failed() =~= failed_walks(upto));
        }
        i += 1;
    }
    assert(walks@.subrange(0, i as int) =~= walks@);
    let gathered = collector.finish();
    ScanOutcome {
        files: sort_by_path(gathered.files),
        failed_roots: gathered.failed_roots,
        skipped: gathered.skipped,
        complete: gathered.complete,
    }
}

/// The report of a scan: the records that arrived, sorted by path.
pub open spec fn report_of(arrived: Seq<Message>) -> Seq<Record> {
    sort_by_path_spec(found_records(arrived))
}

/// Two scans whose producers sent the same messages give the same report,
/// however the messages of the producers were mixed on their way, as long as
/// the records found under one path are the same record. The number of workers changes the mixing and
/// nothing else, so it does not change the report.
pub proof fn lemma_report_ignores_interleaving(
    a: Seq<Message>,
    b: Seq<Message>,
    m1: Seq<Message>,
    m2: Seq<Message>,
)
    requires
        is_interleaving(m1, a, b),
        is_interleaving(m2, a, b),
        paths_decide(found_records(m1)),
    ensures
        report_of(m1) == report_of(m2),
{
    lemma_interleaving_is_union(m1, a, b);
    lemma_interleaving_is_union(m2, a, b);
    lemma_sort_ignores_arrival_order(found_records(m1), found_records(m2));
}

/// Two scans that found the same records give the same report, in whatever
/// order the records arrived, as long as the records found under one path
/// are the same record.
pub proof fn lemma_report_repeatable(m1: Seq<Message>, m2: Seq<Message>)
    requires
        found_records(m1).to_multiset() == found_records(m2).to_multiset(),
        paths_decide(found_records(m1)),
    ensures
        report_of(m1) == report_of(m2),
{
    lemma_sort_ignores_arrival_order(found_records(m1), found_records(m2));
}

/// The records of roots scanned together are the records of each group of
/// roots scanned on its own, put together: sorted or not, every record is
/// there exactly as often as the groups found it.
pub proof fn lemma_roots_aggregate(a: Seq<RootWalk>, b: Seq<RootWalk>)
    ensures
        observed_records(a + b) == observed_records(a) + observed_records(b),
        sort_by_path_spec(observed_records(a + b)).to_multiset() == sort_by_path_spec(
            observed_records(a),
        ).to_multiset().add(sort_by_path_spec(observed_records(b)).to_multiset()),
    decreases b.len(),
{
    if b.len() == 0 {
        assert(a + b =~= a);
        assert(observed_records(a) + observed_records(b) =~= observed_records(a));
    } else {
        lemma_roots_aggregate(a, b.drop_last());
        assert((a + b).drop_last() =~= a + b.drop_last());
        assert((a + b).last() == b.last());
        assert(observed_records(a + b) =~= observed_records(a) + observed_records(b));
    }
    lemma_sort_is_permutation(observed_records(a + b));
    lemma_sort_is_permutation(observed_records(a));
    lemma_sort_is_permutation(observed_records(b));
    vstd::seq_lib::lemma_multiset_commutative(observed_records(a), observed_records(b));
}

/// The order in which the roots are given does not change the report, as
/// long as the records found under one path are the same record.
pub proof fn lemma_root_order_is_irrelevant(a: Seq<RootWalk>, b: Seq<RootWalk>)
    requires
        paths_decide(observed_records(a + b)),
    ensures
        sort_by_path_spec(observed_records(a + b)) == sort_by_path_spec(observed_records(b + a)),
{
    lemma_roots_aggregate(a, b);
    lemma_roots_aggregate(b, a);
    vstd::seq_lib::lemma_seq_union_to_multiset_commutative(
        observed_records(a),
        observed_records(b),
    );
    lemma_sort_ignores_arrival_order(observed_records(a + b), observed_records(b + a));
}

/// Whether no path of `x` is a path of `y`: what holds of the records of
/// roots that do not overlap.
pub open spec fn no_common_path(x: Seq<Record>, y: Seq<Record>) -> bool {
    forall|i: int, j: int|
        0 <= i < x.len() && 0 <= j < y.len() ==> (#[trigger] x[i]).path != (#[trigger] y[j]).path
}

/// Roots that do not overlap, each scanned without a duplicate, give no
/// duplicate when they are scanned together.
pub proof fn lemma_disjoint_roots_stay_distinct(a: Seq<RootWalk>, b: Seq<RootWalk>)
    requires
        distinct_paths(observed_records(a)),
        distinct_paths(observed_records(b)),
        no_common_path(observed_records(a), observed_records(b)),
    ensures
        distinct_paths(observed_records(a + b)),
{
    lemma_roots_aggregate(a, b);
    let x = observed_records(a);
    let y = observed_records(b);
    let z = x + y;
    assert forall|i: int, j: int| 0 <= i < j < z.len() implies (#[trigger] z[i]).path != (
    #[trigger] z[j]).path by {
        if j < x.len() {
            assert(z[i] == x[i] && z[j] == x[j]);
        } else if i < x.len() {
            assert(z[i] == x[i] && z[j] == y[j - x.len()]);
        } else {
            assert(z[i] == y[i - x.len()] && z[j] == y[j - x.len()]);
        }
    }
}

} // verus!
