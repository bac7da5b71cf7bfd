use vstd::prelude::*;
use crate::error::PerfError;

verus! {

/// A span between its start and its end. `clean` stays true as long as no
/// other span has started, and so reset the shared group, since this one
/// started.
#[derive(Debug, Clone, Copy, PartialEq, Eq, Structural)]
pub struct ActiveSpan {
    pub id: u64,
    pub clean: bool,
}

pub open spec fn disturbed(s: ActiveSpan) -> ActiveSpan {
    ActiveSpan { id: s.id, clean: false }
}

/// Position of the active span `id`.
pub open spec fn span_pos(active: Seq<ActiveSpan>, id: u64) -> Option<int>
    decreases active.len(),
{
    if active.len() == 0 {
        None
    } else if active.last().id == id {
        Some(active.len() - 1)
    } else {
        span_pos(active.drop_last(), id)
    }
}

/// The active spans after `id` starts: every span already active is
/// disturbed by the reset, the new one is clean.
pub open spec fn started(active: Seq<ActiveSpan>, id: u64) -> Seq<ActiveSpan> {
    active.map_values(|s: ActiveSpan| disturbed(s)).push(ActiveSpan { id, clean: true })
}

/// Whether the span `id` would end clean, if it is active.
pub open spec fn ends_clean(active: Seq<ActiveSpan>, id: u64) -> Option<bool> {
    match span_pos(active, id) {
        Some(i) => Some(active[i].clean),
        None => None,
    }
}

/// The active spans after `id` ends.
pub open spec fn ended(active: Seq<ActiveSpan>, id: u64) -> Seq<ActiveSpan> {
    match span_pos(active, id) {
        Some(i) => active.remove(i),
        None => active,
    }
}

/// No span id is active twice.
pub open spec fn ids_unique(active: Seq<ActiveSpan>) -> bool {
    forall|i: int, j: int| 0 <= i < j < active.len() ==> #[trigger] active[i].id != #[trigger] active[j].id
}

pub proof fn lemma_span_pos_bounds(active: Seq<ActiveSpan>, id: u64)
    ensures
        span_pos(active, id) matches Some(i) ==> 0 <= i < active.len() && active[i].id == id,
        span_pos(active, id) is None ==> forall|i: int| 0 <= i < active.len() ==> active[i].id != id,
    decreases active.len(),
{
    if active.len() > 0 && active.last().id != id {
        lemma_span_pos_bounds(active.drop_last(), id);
        assert forall|i: int| 0 <= i < active.len() - 1 implies active[i] == active.drop_last()[i] by {}
    }
}

/// The lifecycle of spans over one shared counter group: a span goes from
/// idle to active at its start and from active to closed at its end.
pub struct SpanTracker {
    active: Vec<ActiveSpan>,
}

impl View for SpanTracker {
    type V = Seq<ActiveSpan>;

    closed spec fn view(&self) -> Seq<ActiveSpan> {
        self.active@
    }
}

impl SpanTracker {
    pub closed spec fn wf(&self) -> bool {
        ids_unique(self@)
    }

    /// No span active.
    pub fn new() -> (r: SpanTracker)
        ensures
            r.wf(),
            r@ == Seq::<ActiveSpan>::empty(),
    {
        SpanTracker { active: Vec::new() }
    }

    fn find(&self, id: u64) -> (r: Option<usize>)
        ensures
            r matches Some(i) ==> span_pos(self@, id) == Some(i as int),
            r is None <==> span_pos(self@, id) is None,
    {
        let mut i: usize = self.active.len();
        assert(self@.subrange(0, i as int) =~= self@);
        while i > 0
            invariant
                i <= self@.len(),
                span_pos(self@.subrange(0, i as int), id) == span_pos(self@, id),
            decreases i,
        {
            assert(self@.subrange(0, i as int).drop_last() =~= self@.subrange(0, i - 1));
            if self.active[i - 1].id == id {
                return Some(i - 1);
            }
            i = i - 1;
        }
        None
    }

    /// Whether the span `id` is active.
    pub fn is_active(&self, id: u64) -> (r: bool)
        ensures
            r == span_pos(self@, id) is Some,
    {
        self.find(id).is_some()
    }

    /// Span `id` starts. A span that is already active cannot start again.
    pub fn start(&mut self, id: u64) -> (r: Result<(), PerfError>)
        requires
            old(self).wf(),
            old(self)@.len() < usize::MAX,
        ensures
            final(self).wf(),
            span_pos(old(self)@, id) is Some ==> r == Err::<(), PerfError>(PerfError::InvalidState)
                && final(self)@ == old(self)@,
            span_pos(old(self)@, id) is None ==> r is Ok && final(self)@ == started(old(self)@, id),
    {
        proof { lemma_span_pos_bounds(self@, id); }
        if self.find(id).is_some() {
            return Err(PerfError::InvalidState);
        }
        let ghost before = self@;
        let mut k: usize = 0;
        while k < self.active.len()
            invariant
                k <= self@.len(),
                self@.len() == before.len(),
                forall|j: int| 0 <= j < k ==> self@[j] == disturbed(before[j]),
                forall|j: int| k <= j < self@.len() ==> self@[j] == before[j],
            decreases self@.len() - k,
        {
            let s = self.active[k];
            self.active.set(k, ActiveSpan { id: s.id, clean: false });
            k = k + 1;
        }
        self.active.push(ActiveSpan { id, clean: true });
        assert(self@ =~= started(before, id));
        assert(forall|j: int| 0 <= j < before.len() ==> #[trigger] self@[j].id == before[j].id);
        Ok(())
    }

    /// Span `id` ends; returns whether its counts are its own, that is
    /// whether no other span started, and reset the group, in between. A span
    /// that is not active cannot end.
    pub fn end(&mut self, id: u64) -> (r: Result<bool, PerfError>)
        requires
            old(self).wf(),
        ensures
            final(self).wf(),
            final(self)@ == ended(old(self)@, id),
            span_pos(final(self)@, id) is None,
            r == (match ends_clean(old(self)@, id) {
                Some(c) => Ok::<bool, PerfError>(c),
                None => Err(PerfError::InvalidState),
            }),
    {
        proof { lemma_span_pos_bounds(self@, id); }
        match self.find(id) {
            Some(i) => {
                let ghost before = self@;
                let s = self.active.remove(i);
                assert(forall|j: int| 0 <= j < self@.len() ==> #[trigger] self@[j] == before[if j < i { j } else { j + 1 }]);
                proof { lemma_span_pos_bounds(self@, id); }
                Ok(s.clean)
            },
            None => Err(PerfError::InvalidState),
        }
    }
}

/// Spans that follow one another without overlap each end clean: the
/// second one's counts owe nothing to the first.
pub proof fn lemma_sequential_spans_clean(first: u64, second: u64)
    ensures
        ends_clean(started(Seq::empty(), first), first) == Some(true),
        ended(started(Seq::empty(), first), first) == Seq::<ActiveSpan>::empty(),
        ends_clean(started(ended(started(Seq::empty(), first), first), second), second) == Some(true),
{
    let s1 = started(Seq::<ActiveSpan>::empty(), first);
    assert(s1.last().id == first);
    assert(s1.remove(0) =~= Seq::<ActiveSpan>::empty());
    let s2 = started(Seq::<ActiveSpan>::empty(), second);
    assert(s2.last().id == second);
}

/// A span that starts inside another resets the shared group: the inner
/// span ends clean, the outer one is marked as not holding its own counts.
pub proof fn lemma_nested_span_disturbs_outer(outer: u64, inner: u64)
    requires
        outer != inner,
    ensures
        ends_clean(started(started(Seq::empty(), outer), inner), inner) == Some(true),
        ends_clean(ended(started(started(Seq::empty(), outer), inner), inner), outer) == Some(false),
{
    let s1 = started(Seq::<ActiveSpan>::empty(), outer);
    let s2 = started(s1, inner);
    assert(s2.last().id == inner);
    assert(span_pos(s2, inner) == Some(1int));
    let s3 = s2.remove(1);
    assert(s3.len() == 1);
    assert(s3[0] == disturbed(ActiveSpan { id: outer, clean: true }));
    assert(s3.last().id == outer);
}

} // verus!
