//! Bounded-parallelism scheduling of a batch of uploads.
//!
//! The scheduler hands out file indices to start while fewer than the bound are in flight,
//! records each file's outcome as it completes, and once every file is accounted for yields
//! the addresses obtained and the failures, in the order of submission.
use vstd::prelude::*;
use crate::outcome::{copy_failure, FailedUploadInfo, TransferOutcome};

verus! {

pub struct BatchScheduler {
    limit: usize,
    next: usize,
    in_flight: usize,
    outcomes: Vec<Option<TransferOutcome>>,
}

/// How many entries hold an outcome.
pub open spec fn count_done(s: Seq<Option<TransferOutcome>>) -> nat
    decreases s.len(),
{
    if s.len() == 0 {
        0
    } else {
        count_done(s.drop_last()) + if s.last() is Some { 1nat } else { 0nat }
    }
}

/// The addresses of the successful outcomes, in order.
pub open spec fn urls_of(s: Seq<Option<TransferOutcome>>) -> Seq<Seq<char>>
    decreases s.len(),
{
    if s.len() == 0 {
        Seq::empty()
    } else {
        match s.last() {
            Some(TransferOutcome::Uploaded(u)) => urls_of(s.drop_last()).push(u@),
            _ => urls_of(s.drop_last()),
        }
    }
}

/// The failure reports, in order.
pub open spec fn failures_of(s: Seq<Option<TransferOutcome>>) -> Seq<FailedUploadInfo>
    decreases s.len(),
{
    if s.len() == 0 {
        Seq::empty()
    } else {
        match s.last() {
            Some(TransferOutcome::Failed(f)) => failures_of(s.drop_last()).push(f),
            _ => failures_of(s.drop_last()),
        }
    }
}

proof fn lemma_count_done_bounded(s: Seq<Option<TransferOutcome>>)
    ensures
        count_done(s) <= s.len(),
        (exists|i: int| 0 <= i < s.len() && s[i] is None) ==> count_done(s) < s.len(),
    decreases s.len(),
{
    if s.len() > 0 {
        lemma_count_done_bounded(s.drop_last());
        if exists|i: int| 0 <= i < s.len() && s[i] is None {
            let i = choose|i: int| 0 <= i < s.len() && s[i] is None;
            if i < s.len() - 1 {
                assert(s.drop_last()[i] is None);
            }
        }
    }
}

proof fn lemma_count_done_prefix(s: Seq<Option<TransferOutcome>>, n: int)
    requires
        0 <= n <= s.len(),
        forall|j: int| n <= j < s.len() ==> s[j] is None,
    ensures
        count_done(s) == count_done(s.take(n)),
    decreases s.len(),
{
    if s.len() > n {
        assert(s.drop_last().take(n) =~= s.take(n));
        lemma_count_done_prefix(s.drop_last(), n);
    } else {
        assert(s.take(n) =~= s);
    }
}

proof fn lemma_count_done_update(s: Seq<Option<TransferOutcome>>, i: int, o: TransferOutcome)
    requires
        0 <= i < s.len(),
        s[i] is None,
    ensures
        count_done(s.update(i, Some(o))) == count_done(s) + 1,
    decreases s.len(),
{
    let t = s.update(i, Some(o));
    if i == s.len() - 1 {
        assert(t.drop_last() =~= s.drop_last());
    } else {
        assert(t.drop_last() =~= s.drop_last().update(i, Some(o)));
        lemma_count_done_update(s.drop_last(), i, o);
    }
}

proof fn lemma_outcome_lists_cover(s: Seq<Option<TransferOutcome>>)
    requires
        forall|i: int| 0 <= i < s.len() ==> s[i] is Some,
    ensures
        urls_of(s).len() + failures_of(s).len() == s.len(),
    decreases s.len(),
{
    if s.len() > 0 {
        lemma_outcome_lists_cover(s.drop_last());
    }
}

impl BatchScheduler {
    pub closed spec fn limit_spec(&self) -> nat {
        self.limit as nat
    }

    /// How many files were started so far: they were started in order of submission.
    pub closed spec fn started(&self) -> nat {
        self.next as nat
    }

    /// How many files are started and not yet complete.
    pub closed spec fn in_flight_spec(&self) -> nat {
        self.in_flight as nat
    }

    /// The outcome recorded for each file of the batch, `None` while there is none.
    pub closed spec fn outcomes_spec(&self) -> Seq<Option<TransferOutcome>> {
        self.outcomes@
    }

    pub open spec fn total(&self) -> nat {
        self.outcomes_spec().len()
    }

    pub closed spec fn wf(&self) -> bool {
        &&& self.limit >= 1
        &&& self.next <= self.outcomes.len()
        &&& self.in_flight <= self.limit
        &&& count_done(self.outcomes@) + self.in_flight == self.next
        &&& forall|j: int| self.next <= j < self.outcomes.len() ==> self.outcomes@[j] is None
    }

    pub open spec fn done(&self) -> bool {
        self.started() == self.total() && self.in_flight_spec() == 0
    }

    /// A scheduler for `total` files with at most `limit` of them in flight at once.
    pub fn new(total: usize, limit: usize) -> (r: BatchScheduler)
        requires
            limit >= 1,
        ensures
            r.wf(),
            r.limit_spec() == limit,
            r.total() == total,
            r.started() == 0,
            r.in_flight_spec() == 0,
            forall|i: int| 0 <= i < total ==> r.outcomes_spec()[i] is None,
    {
        let mut outcomes: Vec<Option<TransferOutcome>> = Vec::new();
        let mut i: usize = 0;
        while i < total
            invariant
                i <= total,
                outcomes@.len() == i,
                forall|j: int| 0 <= j < i ==> outcomes@[j] is None,
            decreases total - i,
        {
            outcomes.push(None);
            i = i + 1;
        }
        proof {
            lemma_count_done_prefix(outcomes@, 0);
            assert(outcomes@.take(0) =~= Seq::<Option<TransferOutcome>>::empty());
        }
        BatchScheduler { limit, next: 0, in_flight: 0, outcomes }
    }

    /// The bound on files in flight.
    pub fn limit(&self) -> (r: usize)
        ensures
            r == self.limit_spec(),
    {
        self.limit
    }

    /// How many files are in flight now.
    pub fn in_flight(&self) -> (r: usize)
        ensures
            r == self.in_flight_spec(),
    {
        self.in_flight
    }

    /// Whether every file has been started and has completed.
    pub fn is_done(&self) -> (r: bool)
        requires
            self.wf(),
        ensures
            r == self.done(),
    {
        self.next == self.outcomes.len() && self.in_flight == 0
    }

    /// The next file to start, if the bound allows one more in flight and one is left.
    pub fn start_next(&mut self) -> (r: Option<usize>)
        requires
            old(self).wf(),
        ensures
            final(self).wf(),
            final(self).limit_spec() == old(self).limit_spec(),
            final(self).outcomes_spec() == old(self).outcomes_spec(),
            final(self).in_flight_spec() <= final(self).limit_spec(),
            if old(self).in_flight_spec() < old(self).limit_spec() && old(self).started()
                < old(self).total() {
                &&& r == Some(old(self).started() as usize)
                &&& final(self).started() == old(self).started() + 1
                &&& final(self).in_flight_spec() == old(self).in_flight_spec() + 1
            } else {
                &&& r is None
                &&& final(self).started() == old(self).started()
                &&& final(self).in_flight_spec() == old(self).in_flight_spec()
            },
    {
        if self.in_flight < self.limit && self.next < self.outcomes.len() {
            let i = self.next;
            self.next = self.next + 1;
            self.in_flight = self.in_flight + 1;
            Some(i)
        } else {
            None
        }
    }

    /// Records the outcome of file `file`. Returns `false`, and changes nothing, where that
    /// file was not started or already has an outcome.
    pub fn complete(&mut self, file: usize, outcome: TransferOutcome) -> (r: bool)
        requires
            old(self).wf(),
        ensures
            final(self).wf(),
            final(self).limit_spec() == old(self).limit_spec(),
            final(self).started() == old(self).started(),
            r == (file < old(self).started() && old(self).outcomes_spec()[file as int] is None),
            r ==> final(self).outcomes_spec() == old(self).outcomes_spec().update(
                file as int,
                Some(outcome),
            ) && final(self).in_flight_spec() == old(self).in_flight_spec() - 1,
            !r ==> final(self).outcomes_spec() == old(self).outcomes_spec()
                && final(self).in_flight_spec() == old(self).in_flight_spec(),
    {
        if file >= self.next {
            return false;
        }
        if self.outcomes[file].is_some() {
            return false;
        }
        proof {
            let s = self.outcomes@;
            lemma_count_done_prefix(s, self.next as int);
            assert(s.take(self.next as int)[file as int] is None);
            lemma_count_done_bounded(s.take(self.next as int));
            lemma_count_done_update(s, file as int, outcome);
            assert forall|j: int| self.next <= j < s.len() implies s.update(
                file as int,
                Some(outcome),
            )[j] is None by {}
        }
        self.outcomes.set(file, Some(outcome));
        self.in_flight = self.in_flight - 1;
        true
    }

    /// The addresses obtained and the failures, each in the order in which the files were
    /// submitted.
    pub fn finish(&self) -> (r: (Vec<String>, Vec<FailedUploadInfo>))
        requires
            self.wf(),
            self.done(),
        ensures
            r.0@.map_values(|u: String| u@) == urls_of(self.outcomes_spec()),
            r.1@ == failures_of(self.outcomes_spec()),
    {
        let mut urls: Vec<String> = Vec::new();
        let mut failures: Vec<FailedUploadInfo> = Vec::new();
        let mut i: usize = 0;
        while i < self.outcomes.len()
            invariant
                i <= self.outcomes.len(),
                urls@.map_values(|u: String| u@) == urls_of(self.outcomes@.take(i as int)),
                failures@ == failures_of(self.outcomes@.take(i as int)),
            decreases self.outcomes.len() - i,
        {
            let ghost prefix = self.outcomes@.take(i as int);
            assert(self.outcomes@.take(i + 1).drop_last() =~= prefix);
            match &self.outcomes[i] {
                Some(TransferOutcome::Uploaded(u)) => {
                    urls.push(u.clone());
                    assert(urls@.map_values(|u: String| u@) =~= urls_of(prefix).push(u@));
                },
                Some(TransferOutcome::Failed(f)) => {
                    failures.push(copy_failure(f));
                },
                None => {},
            }
            i = i + 1;
        }
        assert(self.outcomes@.take(i as int) =~= self.outcomes@);
        (urls, failures)
    }
}

/// A batch that has finished holds an outcome for every submitted file, and what it yields
/// accounts for each of them exactly once, as an address or as a failure; at no point were
/// more files in flight than the bound.
pub proof fn lemma_finished_batch_covers_every_file(b: BatchScheduler)
    requires
        b.wf(),
        b.done(),
    ensures
        forall|i: int| 0 <= i < b.total() ==> b.outcomes_spec()[i] is Some,
        urls_of(b.outcomes_spec()).len() + failures_of(b.outcomes_spec()).len() == b.total(),
        b.in_flight_spec() <= b.limit_spec(),
{
    let s = b.outcomes_spec();
    lemma_count_done_bounded(s);
    assert forall|i: int| 0 <= i < b.total() implies s[i] is Some by {
        if s[i] is None {
            lemma_count_done_bounded(s);
        }
    }
    lemma_outcome_lists_cover(s);
}

} // verus!
