use vstd::prelude::*;

verus! {

/// Number of flushes that `k` releases perform on a guard whose state is
/// `finalized`.
pub open spec fn flushes(finalized: bool, k: nat) -> nat
    decreases k,
{
    if k == 0 {
        0
    } else {
        (if finalized { 0nat } else { 1nat }) + flushes(true, (k - 1) as nat)
    }
}

/// Ties the flush of the instrumentation's output to the end of a session:
/// reports are buffered, and handed out for the destination once, at the
/// guard's release.
pub struct LifecycleGuard {
    destination: String,
    reports: Vec<String>,
    finalized: bool,
}

impl LifecycleGuard {
    pub closed spec fn destination_view(&self) -> Seq<char> {
        self.destination@
    }

    pub closed spec fn is_finalized(&self) -> bool {
        self.finalized
    }

    /// The reports waiting for the flush, in the order they were buffered.
    pub closed spec fn buffered(&self) -> Seq<String> {
        self.reports@
    }

    /// A guard that will flush to `destination`, with nothing buffered.
    pub fn new(destination: &str) -> (r: LifecycleGuard)
        ensures
            r.destination_view() == destination@,
            !r.is_finalized(),
            r.buffered() == Seq::<String>::empty(),
    {
        LifecycleGuard { destination: destination.to_owned(), reports: Vec::new(), finalized: false }
    }

    /// Where the output goes.
    pub fn destination(&self) -> (r: &String)
        ensures
            r@ == self.destination_view(),
    {
        &self.destination
    }

    /// Whether the guard has been released.
    pub fn finalized(&self) -> (r: bool)
        ensures
            r == self.is_finalized(),
    {
        self.finalized
    }

    /// Number of buffered reports.
    pub fn pending(&self) -> (n: usize)
        ensures
            n == self.buffered().len(),
    {
        self.reports.len()
    }

    /// Buffers a report for the flush; returns whether it was taken. A
    /// released guard takes no more reports.
    pub fn push_report(&mut self, report: String) -> (taken: bool)
        ensures
            taken == !old(self).is_finalized(),
            final(self).is_finalized() == old(self).is_finalized(),
            final(self).destination_view() == old(self).destination_view(),
            taken ==> final(self).buffered() == old(self).buffered().push(report),
            !taken ==> final(self).buffered() == old(self).buffered(),
    {
        if self.finalized {
            return false;
        }
        self.reports.push(report);
        true
    }

    /// Releases the guard. The first release hands out every buffered
    /// report, in order, for the flush; later ones hand out nothing.
    pub fn release(&mut self) -> (flush: Option<Vec<String>>)
        ensures
            flush is Some == !old(self).is_finalized(),
            flush matches Some(v) ==> v@ == old(self).buffered(),
            final(self).is_finalized(),
            final(self).buffered() == Seq::<String>::empty(),
            final(self).destination_view() == old(self).destination_view(),
    {
        if self.finalized {
            self.reports = Vec::new();
            return None;
        }
        self.finalized = true;
        let mut out: Vec<String> = Vec::new();
        std::mem::swap(&mut out, &mut self.reports);
        Some(out)
    }
}

/// However many times a fresh guard is released, on whatever exit paths,
/// it asks for exactly one flush.
pub proof fn lemma_flush_exactly_once(k: nat)
    requires
        k >= 1,
    ensures
        flushes(false, k) == 1,
{
    lemma_no_flush_after_release((k - 1) as nat);
}

pub proof fn lemma_no_flush_after_release(k: nat)
    ensures
        flushes(true, k) == 0,
    decreases k,
{
    if k > 0 {
        lemma_no_flush_after_release((k - 1) as nat);
    }
}

} // verus!
