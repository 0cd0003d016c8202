//! The result collector: the single sink into which every walker of every
//! root sends its records, and which knows when all of them have finished.

use vstd::prelude::*;
use crate::record::{DiscoveredFile, Record, records};

verus! {

/// What a producer sends to the collector.
#[derive(Clone, Debug)]
pub enum Message {
    /// A qualifying file was found.
    Found(DiscoveredFile),
    /// The walk of the root with this index came to its end.
    RootDone { root: usize },
    /// The walk of the root with this index could not be carried out.
    RootFailed { root: usize },
    /// An entry was passed over because it could not be read.
    Skipped,
}

/// The records that a run of messages carries, in the order of arrival.
pub open spec fn found_records(msgs: Seq<Message>) -> Seq<Record>
    decreases msgs.len(),
{
    if msgs.len() == 0 {
        Seq::empty()
    } else {
        match msgs.last() {
            Message::Found(f) => found_records(msgs.drop_last()).push(f@),
            _ => found_records(msgs.drop_last()),
        }
    }
}

/// The roots that a run of messages reports as failed, in the order of
/// arrival.
pub open spec fn failed_roots(msgs: Seq<Message>) -> Seq<usize>
    decreases msgs.len(),
{
    if msgs.len() == 0 {
        Seq::empty()
    } else {
        match msgs.last() {
            Message::RootFailed { root } => failed_roots(msgs.drop_last()).push(root),
            _ => failed_roots(msgs.drop_last()),
        }
    }
}

/// How many producers a run of messages reports as finished, in either way.
pub open spec fn completions(msgs: Seq<Message>) -> nat
    decreases msgs.len(),
{
    if msgs.len() == 0 {
        0
    } else {
        match msgs.last() {
            Message::RootDone { .. } => completions(msgs.drop_last()) + 1,
            Message::RootFailed { .. } => completions(msgs.drop_last()) + 1,
            _ => completions(msgs.drop_last()),
        }
    }
}

/// How many entries a run of messages reports as passed over.
pub open spec fn skips(msgs: Seq<Message>) -> nat
    decreases msgs.len(),
{
    if msgs.len() == 0 {
        0
    } else {
        match msgs.last() {
            Message::Skipped => skips(msgs.drop_last()) + 1,
            _ => skips(msgs.drop_last()),
        }
    }
}

/// A count as the collector keeps it: exact up to the largest number that
/// it can hold, and that number from there on.
pub open spec fn capped(n: nat) -> nat {
    if n >= usize::MAX {
        usize::MAX as nat
    } else {
        n
    }
}

/// What is left of `pending` producers after `done` of them have finished.
pub open spec fn remaining(pending: nat, done: nat) -> nat {
    if done >= pending {
        0
    } else {
        (pending - done) as nat
    }
}

/// What a finished scan hands to the reporter.
#[derive(Debug)]
pub struct ScanOutcome {
    /// Every record that was received, in the order of arrival.
    pub files: Vec<DiscoveredFile>,
    /// The roots whose walk failed, in the order in which that was reported.
    pub failed_roots: Vec<usize>,
    /// How many entries were passed over because they could not be read.
    pub skipped: usize,
    /// Whether every producer had finished.
    pub complete: bool,
}

/// The sink of a scan.
#[derive(Debug)]
pub struct Collector {
    files: Vec<DiscoveredFile>,
    failed: Vec<usize>,
    skipped: usize,
    pending: usize,
}

impl Collector {
    /// The records received so far, in the order of arrival.
    pub closed spec fn collected(&self) -> Seq<Record> {
        records(self.files@)
    }

    /// The roots reported as failed so far.
    pub closed spec fn failed(&self) -> Seq<usize> {
        self.failed@
    }

    /// The number of producers that have not finished yet.
    pub closed spec fn pending(&self) -> nat {
        self.pending as nat
    }

    /// The number of entries reported as passed over so far.
    pub closed spec fn skipped(&self) -> nat {
        self.skipped as nat
    }

    /// A collector that waits for `producers` producers and holds nothing.
    pub fn new(producers: usize) -> (c: Self)
        ensures
            c.collected() == Seq::<Record>::empty(),
            c.failed() == Seq::<usize>::empty(),
            c.pending() == producers,
            c.skipped() == 0,
    {
        let c = Collector { files: Vec::new(), failed: Vec::new(), skipped: 0, pending: producers };
        assert(c.collected() =~= Seq::<Record>::empty());
        c
    }

    /// Whether every producer has finished, so that nothing more can arrive.
    pub fn is_complete(&self) -> (done: bool)
        ensures
            done == (self.pending() == 0),
    {
        self.pending == 0
    }

    /// The number of records received so far.
    pub fn len(&self) -> (n: usize)
        ensures
            n == self.collected().len(),
    {
        self.files.len()
    }

    /// Takes in one message. A record is appended as it is; the end of a
    /// walk, failed or not, leaves one producer fewer to wait for.
    pub fn receive(&mut self, msg: Message)
        ensures
            final(self).collected() == old(self).collected() + found_records(seq![msg]),
            final(self).failed() == old(self).failed() + failed_roots(seq![msg]),
            final(self).pending() == remaining(old(self).pending(), completions(seq![msg])),
            final(self).skipped() == capped(old(self).skipped() + skips(seq![msg])),
            match msg {
                Message::Found(f) => {
                    &&& final(self).collected() == old(self).collected().push(f@)
                    &&& final(self).failed() == old(self).failed()
                    &&& final(self).pending() == old(self).pending()
                    &&& final(self).skipped() == old(self).skipped()
                },
                Message::RootDone { root } => {
                    &&& final(self).collected() == old(self).collected()
                    &&& final(self).failed() == old(self).failed()
                    &&& final(self).pending() == remaining(old(self).pending(), 1)
                    &&& final(self).skipped() == old(self).skipped()
                },
                Message::RootFailed { root } => {
                    &&& final(self).collected() == old(self).collected()
                    &&& final(self).failed() == old(self).failed().push(root)
                    &&& final(self).pending() == remaining(old(self).pending(), 1)
                    &&& final(self).skipped() == old(self).skipped()
                },
                Message::Skipped => {
                    &&& final(self).collected() == old(self).collected()
                    &&& final(self).failed() == old(self).failed()
                    &&& final(self).pending() == old(self).pending()
                    &&& final(self).skipped() == capped(old(self).skipped() + 1)
                },
            },
    {
        proof {
            let one = seq![msg];
            assert(one.drop_last() =~= Seq::<Message>::empty());
            assert(one.last() == msg);
            reveal_with_fuel(found_records, 2);
            reveal_with_fuel(failed_roots, 2);
            reveal_with_fuel(completions, 2);
            reveal_with_fuel(skips, 2);
        }
        match msg {
            Message::Found(f) => {
                let ghost before = self.files@;
                self.files.push(f);
                assert(records(self.files@) =~= records(before) + seq![f@]);
                assert(records(self.files@) =~= records(before).push(f@));
                assert(found_records(seq![msg]) =~= seq![f@]);
                assert(self.failed@ =~= old(self).failed@ + Seq::<usize>::empty());
            },
            Message::RootDone { root } => {
                if self.pending > 0 {
                    self.pending = self.pending - 1;
                }
                assert(records(self.files@) =~= records(self.files@) + Seq::<Record>::empty());
                assert(self.failed@ =~= old(self).failed@ + Seq::<usize>::empty());
            },
            Message::RootFailed { root } => {
                if self.pending > 0 {
                    self.pending = self.pending - 1;
                }
                self.failed.push(root);
                assert(records(self.files@) =~= records(self.files@) + Seq::<Record>::empty());
                assert(self.failed@ =~= old(self).failed@ + seq![root]);
                assert(self.failed@ =~= old(self).failed@.push(root));
            },
            Message::Skipped => {
                if self.skipped < usize::MAX {
                    self.skipped = self.skipped + 1;
                }
                assert(records(self.files@) =~= records(self.files@) + Seq::<Record>::empty());
                assert(self.failed@ =~= old(self).failed@ + Seq::<usize>::empty());
            },
        }
    }

    /// Takes in the records of one producer in one piece, as if each had
    /// come in a message of its own.
    pub fn receive_files(&mut self, files: Vec<DiscoveredFile>)
        ensures
            final(self).collected() == old(self).collected() + records(files@),
            final(self).failed() == old(self).failed(),
            final(self).pending() == old(self).pending(),
            final(self).skipped() == old(self).skipped(),
    {
        let mut files = files;
        let ghost before = self.files@;
        let ghost added = files@;
        self.files.append(&mut files);
        assert(records(before + added) =~= records(before) + records(added));
    }

    /// Takes in a number of passed-over entries in one piece, as if each had
    /// come in a message of its own.
    pub fn receive_skips(&mut self, count: usize)
        ensures
            final(self).collected() == old(self).collected(),
            final(self).failed() == old(self).failed(),
            final(self).pending() == old(self).pending(),
            final(self).skipped() == capped(old(self).skipped() + count as nat),
    {
        if count > usize::MAX - self.skipped {
            self.skipped = usize::MAX;
        } else {
            self.skipped = self.skipped + count;
        }
    }

    /// Takes in a run of messages, one after the other.
    pub fn receive_all(&mut self, msgs: Vec<Message>)
        ensures
            final(self).collected() == old(self).collected() + found_records(msgs@),
            final(self).failed() == old(self).failed() + failed_roots(msgs@),
            final(self).pending() == remaining(old(self).pending(), completions(msgs@)),
            final(self).skipped() == capped(old(self).skipped() + skips(msgs@)),
    {
        let ghost all = msgs@;
        assert(all.subrange(0, 0) =~= Seq::<Message>::empty());
        assert(self.collected() =~= old(self).collected() + found_records(all.subrange(0, 0)));
        assert(self.failed() =~= old(self).failed() + failed_roots(all.subrange(0, 0)));
        for m in it: msgs
            invariant
                it.seq() == all,
                self.collected() == old(self).collected() + found_records(
                    all.subrange(0, it.index() as int),
                ),
                self.failed() == old(self).failed() + failed_roots(
                    all.subrange(0, it.index() as int),
                ),
                self.pending() == remaining(
                    old(self).pending(),
                    completions(all.subrange(0, it.index() as int)),
                ),
                self.skipped() == capped(
                    old(self).skipped() + skips(all.subrange(0, it.index() as int)),
                ),
        {
            let ghost done = all.subrange(0, it.index() as int);
            proof {
                assert(all.subrange(0, it.index() as int + 1) =~= done + seq![m]);
                lemma_found_records_concat(done, seq![m]);
                lemma_failed_roots_concat(done, seq![m]);
                lemma_completions_concat(done, seq![m]);
                lemma_skips_concat(done, seq![m]);
            }
            self.receive(m);
            assert(self.collected() =~= old(self).collected() + (found_records(done)
                + found_records(seq![m])));
            assert(self.failed() =~= old(self).failed() + (failed_roots(done) + failed_roots(
                seq![m],
            )));
        }
        assert(all.subrange(0, all.len() as int) =~= all);
    }

    /// Ends the collection and hands out what was gathered, untouched.
    pub fn finish(self) -> (out: ScanOutcome)
        ensures
            records(out.files@) == self.collected(),
            out.failed_roots@ == self.failed(),
            out.skipped == self.skipped(),
            out.complete == (self.pending() == 0),
    {
        let complete = self.pending == 0;
        ScanOutcome {
            files: self.files,
            failed_roots: self.failed,
            skipped: self.skipped,
            complete,
        }
    }
}

/// The records of two runs of messages, one after the other, are the
/// records of the first followed by those of the second.
pub proof fn lemma_found_records_concat(a: Seq<Message>, b: Seq<Message>)
    ensures
        found_records(a + b) == found_records(a) + found_records(b),
    decreases b.len(),
{
    if b.len() == 0 {
        assert(a + b =~= a);
        assert(found_records(a) + found_records(b) =~= found_records(a));
    } else {
        lemma_found_records_concat(a, b.drop_last());
        assert((a + b).drop_last() =~= a + b.drop_last());
        assert((a + b).last() == b.last());
        assert(found_records(a + b) =~= found_records(a) + found_records(b));
    }
}

/// The failed roots of two runs of messages, one after the other, are those
/// of the first followed by those of the second.
pub proof fn lemma_failed_roots_concat(a: Seq<Message>, b: Seq<Message>)
    ensures
        failed_roots(a + b) == failed_roots(a) + failed_roots(b),
    decreases b.len(),
{
    if b.len() == 0 {
        assert(a + b =~= a);
        assert(failed_roots(a) + failed_roots(b) =~= failed_roots(a));
    } else {
        lemma_failed_roots_concat(a, b.drop_last());
        assert((a + b).drop_last() =~= a + b.drop_last());
        assert((a + b).last() == b.last());
        assert(failed_roots(a + b) =~= failed_roots(a) + failed_roots(b));
    }
}

/// Two runs of messages, one after the other, report as many producers
/// finished as both together.
pub proof fn lemma_completions_concat(a: Seq<Message>, b: Seq<Message>)
    ensures
        completions(a + b) == completions(a) + completions(b),
    decreases b.len(),
{
    if b.len() == 0 {
        assert(a + b =~= a);
    } else {
        lemma_completions_concat(a, b.drop_last());
        assert((a + b).drop_last() =~= a + b.drop_last());
        assert((a + b).last() == b.last());
    }
}

/// Two runs of messages, one after the other, report as many entries
/// passed over as both together.
pub proof fn lemma_skips_concat(a: Seq<Message>, b: Seq<Message>)
    ensures
        skips(a + b) == skips(a) + skips(b),
    decreases b.len(),
{
    if b.len() == 0 {
        assert(a + b =~= a);
    } else {
        lemma_skips_concat(a, b.drop_last());
        assert((a + b).drop_last() =~= a + b.drop_last());
        assert((a + b).last() == b.last());
    }
}

/// Whether `m` holds the messages of `a` and of `b`, each run in its own
/// order and the two mixed in any way: what a receiver sees of two
/// producers that send at the same time.
pub open spec fn is_interleaving(m: Seq<Message>, a: Seq<Message>, b: Seq<Message>) -> bool
    decreases m.len(),
{
    if m.len() == 0 {
        a.len() == 0 && b.len() == 0
    } else {
        ||| (a.len() > 0 && a.last() == m.last() && is_interleaving(
            m.drop_last(),
            a.drop_last(),
            b,
        ))
        ||| (b.len() > 0 && b.last() == m.last() && is_interleaving(
            m.drop_last(),
            a,
            b.drop_last(),
        ))
    }
}

/// However the messages of two producers are mixed on their way, the
/// records received are those of the one together with those of the other:
/// none is lost and none is there twice over.
pub proof fn lemma_interleaving_is_union(m: Seq<Message>, a: Seq<Message>, b: Seq<Message>)
    requires
        is_interleaving(m, a, b),
    ensures
        found_records(m).to_multiset() == found_records(a).to_multiset().add(
            found_records(b).to_multiset(),
        ),
        found_records(m).len() == found_records(a).len() + found_records(b).len(),
    decreases m.len(),
{
    broadcast use vstd::seq_lib::group_to_multiset_ensures;

    if m.len() == 0 {
        assert(found_records(m).to_multiset() =~= found_records(a).to_multiset().add(
            found_records(b).to_multiset(),
        ));
    } else if a.len() > 0 && a.last() == m.last() && is_interleaving(
        m.drop_last(),
        a.drop_last(),
        b,
    ) {
        lemma_interleaving_is_union(m.drop_last(), a.drop_last(), b);
        assert(found_records(m).to_multiset() =~= found_records(a).to_multiset().add(
            found_records(b).to_multiset(),
        ));
    } else {
        lemma_interleaving_is_union(m.drop_last(), a, b.drop_last());
        assert(found_records(m).to_multiset() =~= found_records(a).to_multiset().add(
            found_records(b).to_multiset(),
        ));
    }
}

} // verus!
