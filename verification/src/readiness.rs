//! Whether the callback workers of this process are up.

use vstd::prelude::*;

verus! {

/// What is known of the workers: how many are expected, and which ones came up.
pub struct ReadinessView {
    pub ready: bool,
    pub fatal: bool,
    pub expected_workers: u16,
    pub ready_workers: Set<u16>,
}

/// Whether as many different workers came up as are expected.
pub open spec fn complete(s: ReadinessView) -> bool {
    s.ready_workers.len() >= s.expected_workers
}

/// Whether what is known of the workers fits together: a failed generation is not
/// ready, and one that waits has either seen no worker or fewer than it expects.
pub open spec fn consistent(s: ReadinessView) -> bool {
    &&& s.ready_workers.finite()
    &&& s.fatal ==> !s.ready
    &&& !s.ready && !s.fatal ==> s.ready_workers == Set::<u16>::empty() || !complete(s)
}

/// What is known after every worker is declared up.
pub open spec fn after_ready(s: ReadinessView) -> ReadinessView {
    if s.fatal {
        s
    } else {
        ReadinessView { ready: true, ..s }
    }
}

/// What is known after a worker reports that it is up. A worker that reports again
/// changes nothing.
pub open spec fn after_worker(s: ReadinessView, worker: u16) -> ReadinessView {
    if s.fatal || s.ready {
        s
    } else {
        let seen = ReadinessView { ready_workers: s.ready_workers.insert(worker), ..s };
        ReadinessView { ready: complete(seen), ..seen }
    }
}

/// What is known after a failure.
pub open spec fn after_fatal(s: ReadinessView) -> ReadinessView {
    ReadinessView { ready: false, fatal: true, ..s }
}

/// Whether the number of workers may still be set.
pub open spec fn unstarted(s: ReadinessView) -> bool {
    !s.ready && !s.fatal && s.ready_workers == Set::<u16>::empty()
}

/// What is known of the workers after some reports.
pub open spec fn after_workers(s: ReadinessView, reports: Seq<u16>) -> ReadinessView
    decreases reports.len(),
{
    if reports.len() == 0 {
        s
    } else {
        after_worker(after_workers(s, reports.drop_last()), reports.last())
    }
}

/// What is known of a fresh generation of workers.
pub open spec fn fresh(worker_count: u16) -> ReadinessView {
    ReadinessView { ready: false, fatal: false, expected_workers: worker_count, ready_workers: Set::empty() }
}

/// Whether the callback workers of this process are up. A failure lasts for the
/// lifetime of the process.
#[derive(Debug)]
pub struct PushReadiness {
    ready: bool,
    fatal: bool,
    expected_workers: u16,
    ready_workers: Vec<u16>,
}

impl View for PushReadiness {
    type V = ReadinessView;

    closed spec fn view(&self) -> ReadinessView {
        ReadinessView {
            ready: self.ready,
            fatal: self.fatal,
            expected_workers: self.expected_workers,
            ready_workers: self.ready_workers@.to_set(),
        }
    }
}

fn unseen(worker_count: u16) -> (r: PushReadiness)
    ensures
        r@ == fresh(worker_count),
{
    let ready_workers: Vec<u16> = Vec::new();
    assert(ready_workers@.to_set() =~= Set::<u16>::empty());
    PushReadiness { ready: false, fatal: false, expected_workers: worker_count, ready_workers }
}

fn has_reported(workers: &Vec<u16>, worker: u16) -> (r: bool)
    ensures
        r == workers@.contains(worker),
{
    let mut i: usize = 0;
    while i < workers.len()
        invariant
            i <= workers@.len(),
            forall|j: int| 0 <= j < i ==> workers@[j] != worker,
        decreases workers@.len() - i,
    {
        if workers[i] == worker {
            assert(workers@[i as int] == worker);
            return true;
        }
        i += 1;
    }
    false
}

fn copy_workers(workers: &Vec<u16>) -> (r: Vec<u16>)
    ensures
        r@ == workers@,
{
    let mut out: Vec<u16> = Vec::new();
    let mut i: usize = 0;
    while i < workers.len()
        invariant
            i <= workers@.len(),
            out@ == workers@.subrange(0, i as int),
        decreases workers@.len() - i,
    {
        out.push(workers[i]);
        assert(workers@.subrange(0, i + 1) =~= workers@.subrange(0, i as int).push(workers@[i as int]));
        i += 1;
    }
    assert(workers@.subrange(0, i as int) =~= workers@);
    out
}

impl Default for PushReadiness {
    /// A generation that expects no worker: the first one that comes up makes it
    /// ready.
    fn default() -> (r: PushReadiness)
        ensures
            r@ == fresh(0),
    {
        unseen(0)
    }
}

impl PushReadiness {
    #[verifier::type_invariant]
    spec fn fits_together(self) -> bool {
        &&& consistent(self@)
        &&& self.ready_workers@.no_duplicates()
    }

    /// A generation of one worker.
    pub fn new() -> (r: PushReadiness)
        ensures
            r@ == fresh(1),
    {
        unseen(1)
    }

    /// A generation of a fixed number of workers, which is not zero.
    pub fn for_workers(worker_count: u16) -> (r: Option<PushReadiness>)
        ensures
            match r {
                None => worker_count == 0,
                Some(p) => worker_count != 0 && p@ == fresh(worker_count),
            },
    {
        if worker_count == 0 {
            return None;
        }
        Some(unseen(worker_count))
    }

    /// Declares every worker up.
    pub fn mark_ready(&mut self)
        ensures
            final(self)@ == after_ready(old(self)@),
    {
        proof {
            use_type_invariant(&*self);
        }
        if !self.fatal {
            *self = PushReadiness {
                ready: true,
                fatal: false,
                expected_workers: self.expected_workers,
                ready_workers: copy_workers(&self.ready_workers),
            };
        }
    }

    /// Records one worker's first successful cycle. A worker that reports again is not
    /// counted again: a generation is ready only once as many different workers
    /// reported as it expects.
    pub fn mark_worker_ready(&mut self, worker: u16)
        ensures
            final(self)@ == after_worker(old(self)@, worker),
    {
        proof {
            use_type_invariant(&*self);
        }
        if self.fatal || self.ready {
            return;
        }
        let expected: u16 = self.expected_workers;
        let mut seen = copy_workers(&self.ready_workers);
        let ghost before = seen@;
        if !has_reported(&seen, worker) {
            seen.push(worker);
            assert(seen@.no_duplicates());
        }
        proof {
            assert forall|w: u16| seen@.contains(w) == (before.contains(w) || w == worker) by {
                if before.contains(w) {
                    let k = choose|k: int| 0 <= k < before.len() && before[k] == w;
                    assert(seen@[k] == w);
                } else if w == worker {
                    assert(seen@[seen@.len() - 1] == w);
                }
            }
            assert(seen@.to_set() =~= before.to_set().insert(worker));
            seen@.unique_seq_to_set();
        }
        let ready = seen.len() >= expected as usize;
        *self = PushReadiness { ready, fatal: false, expected_workers: expected, ready_workers: seen };
    }

    /// Sets the number of workers, as long as none is up.
    pub fn configure_workers(&mut self, worker_count: u16) -> (r: bool)
        ensures
            r == (worker_count != 0 && unstarted(old(self)@)),
            final(self)@ == (if r {
                fresh(worker_count)
            } else {
                old(self)@
            }),
    {
        proof {
            use_type_invariant(&*self);
            self.ready_workers@.unique_seq_to_set();
            if self.ready_workers@.len() == 0 {
                assert(self.ready_workers@.to_set() =~= Set::<u16>::empty());
            }
        }
        if worker_count == 0 || self.ready || self.fatal || self.ready_workers.len() != 0 {
            return false;
        }
        *self = unseen(worker_count);
        true
    }

    /// Records a failure.
    pub fn mark_fatal(&mut self)
        ensures
            final(self)@ == after_fatal(old(self)@),
    {
        proof {
            use_type_invariant(&*self);
        }
        *self = PushReadiness {
            ready: false,
            fatal: true,
            expected_workers: self.expected_workers,
            ready_workers: copy_workers(&self.ready_workers),
        };
    }

    /// Whether callbacks are served.
    pub fn is_ready(&self) -> (r: bool)
        ensures
            r == (self@.ready && !self@.fatal),
    {
        self.ready && !self.fatal
    }

    /// Whether the workers failed.
    pub fn is_fatal(&self) -> (r: bool)
        ensures
            r == self@.fatal,
    {
        self.fatal
    }
}

/// A failure lasts: nothing that happens afterwards makes a failed generation ready.
pub proof fn law_failures_last(s: ReadinessView, reports: Seq<u16>)
    requires
        s.fatal,
        consistent(s),
    ensures
        after_ready(s) == s,
        after_workers(s, reports) == s,
        after_fatal(s) == s,
        !unstarted(s),
        !(s.ready && !s.fatal),
    decreases reports.len(),
{
    if reports.len() > 0 {
        law_failures_last(s, reports.drop_last());
    }
}

/// What is known of the workers fits together after every step.
pub proof fn law_readiness_stays_consistent(s: ReadinessView, worker: u16, worker_count: u16)
    requires
        consistent(s),
    ensures
        consistent(fresh(worker_count)),
        consistent(after_ready(s)),
        consistent(after_worker(s, worker)),
        consistent(after_fatal(s)),
{
}

/// A worker that reports again changes nothing, so its reports alone never complete a
/// generation that expects another worker.
pub proof fn law_duplicate_reports_change_nothing(s: ReadinessView, worker: u16)
    requires
        consistent(s),
        s.ready_workers.contains(worker),
    ensures
        after_worker(s, worker) == s,
{
    assert(s.ready_workers.insert(worker) =~= s.ready_workers);
    if !s.ready && !s.fatal {
        assert(s.ready_workers != Set::<u16>::empty());
    }
}

/// A generation is ready exactly when as many different workers reported as it
/// expects, however often each of them did.
pub proof fn law_partial_generations_are_not_ready(worker_count: u16, reports: Seq<u16>)
    requires
        worker_count > 0,
    ensures
        after_workers(fresh(worker_count), reports).ready == (reports.to_set().len() >= worker_count),
        !after_workers(fresh(worker_count), reports).fatal,
        after_workers(fresh(worker_count), reports).expected_workers == worker_count,
        !after_workers(fresh(worker_count), reports).ready ==> after_workers(
            fresh(worker_count),
            reports,
        ).ready_workers == reports.to_set(),
    decreases reports.len(),
{
    if reports.len() == 0 {
        assert(reports.to_set() =~= Set::<u16>::empty());
    } else {
        let rest = reports.drop_last();
        law_partial_generations_are_not_ready(worker_count, rest);
        assert(reports.to_set() =~= rest.to_set().insert(reports.last())) by {
            assert forall|w: u16| reports.contains(w) implies rest.contains(w) || w == reports.last() by {
                let k = choose|k: int| 0 <= k < reports.len() && reports[k] == w;
                if k < rest.len() {
                    assert(rest[k] == w);
                }
            }
            assert forall|w: u16| rest.contains(w) || w == reports.last() implies reports.contains(w) by {
                if rest.contains(w) {
                    let k = choose|k: int| 0 <= k < rest.len() && rest[k] == w;
                    assert(reports[k] == w);
                } else {
                    assert(reports[reports.len() - 1] == w);
                }
            }
        }
        rest.lemma_cardinality_of_set();
        vstd::seq_lib::seq_to_set_is_finite(rest);
    }
}

/// Declaring every worker up makes a generation ready unless it failed, a failure ends readiness
/// for good, and neither changes how many workers are expected or which ones came up.
pub proof fn law_declarations_keep_the_workers(s: ReadinessView, worker: u16)
    ensures
        after_ready(s).ready == (s.ready || !s.fatal),
        after_ready(s).fatal == s.fatal,
        after_ready(s).expected_workers == s.expected_workers,
        after_ready(s).ready_workers == s.ready_workers,
        after_fatal(s).fatal,
        !after_fatal(s).ready,
        after_fatal(s).expected_workers == s.expected_workers,
        after_fatal(s).ready_workers == s.ready_workers,
        after_worker(s, worker).expected_workers == s.expected_workers,
        after_worker(s, worker).fatal == s.fatal,
        !s.ready && !s.fatal ==> after_worker(s, worker).ready_workers.contains(worker),
        s.ready ==> after_worker(s, worker) == s,
{
}

/// A generation that expects no worker is ready with the first one that comes up, and not before.
pub proof fn law_the_first_worker_completes_an_open_generation(worker: u16)
    ensures
        !fresh(0).ready,
        after_worker(fresh(0), worker).ready,
        after_worker(fresh(1), worker).ready,
        !after_worker(fresh(2), worker).ready,
{
    let one = Set::<u16>::empty().insert(worker);
    assert(one.len() == 1);
}

/// The number of workers is set only before any of them came up and before a failure.
pub proof fn law_generations_are_set_before_they_start(s: ReadinessView, worker: u16, worker_count: u16)
    ensures
        unstarted(fresh(worker_count)),
        unstarted(s) ==> !s.ready && !s.fatal && !s.ready_workers.contains(worker),
        !unstarted(after_worker(s, worker)),
        !unstarted(after_ready(s)),
        !unstarted(after_fatal(s)),
        fresh(worker_count).expected_workers == worker_count,
{
    if unstarted(after_worker(s, worker)) {
        assert(after_worker(s, worker).ready_workers.contains(worker));
        assert(!Set::<u16>::empty().contains(worker));
    }
}

} // verus!
