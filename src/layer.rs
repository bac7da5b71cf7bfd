use vstd::prelude::*;
use crate::error::PerfError;
use crate::event::EventKind;
use crate::group::CounterGroup;
use crate::guard::LifecycleGuard;
use crate::metric::{decimal, push_decimal};
use crate::registry::{body_text, has_ipc_counters, index_of, ipc_report_text, kind_of, Registry};
use crate::span::{ended, ends_clean, span_pos, started, SpanTracker};

verus! {

/// The counts of one span, taken at its end.
pub struct SpanRecord {
    pub span: u64,
    /// Whether no other span started, and reset the group, while this one ran.
    pub clean: bool,
    /// One count per registered counter, in registration order.
    pub counts: Vec<u64>,
}

/// A report with the mark of a span whose counts were cut short by a
/// nested or concurrent span.
pub open spec fn marked(text: Seq<char>, clean: bool) -> Seq<char> {
    if clean { text } else { text + " (overlapped)"@ }
}

/// The report of a span: its id, every counter's raw value and the ratio of
/// instructions to cycles, marked when the span overlapped another.
pub open spec fn span_text(
    entries: Seq<(Seq<char>, EventKind)>,
    span: u64,
    counts: Seq<u64>,
    clean: bool,
) -> Seq<char> {
    marked("{ span: "@ + decimal(span as nat) + ", "@ + body_text(entries, counts), clean)
}

/// Hardware counters attached to spans: the group is reset when a span
/// starts and read when it ends.
pub struct PerfLayer {
    group: CounterGroup,
    registry: Registry,
    spans: SpanTracker,
}

impl PerfLayer {
    /// The registered counters by name, in registration order.
    pub closed spec fn counters(&self) -> Seq<(Seq<char>, EventKind)> {
        self.registry@
    }

    pub closed spec fn is_enabled(&self) -> bool {
        self.group.enabled()
    }

    /// The spans between their start and their end.
    pub closed spec fn active_spans(&self) -> Seq<crate::span::ActiveSpan> {
        self.spans@
    }

    pub closed spec fn wf(&self) -> bool {
        &&& self.group.wf()
        &&& self.group.readable()
        &&& self.registry.wf()
        &&& self.spans.wf()
        &&& self.registry@.len() == self.group.kinds().len()
        &&& forall|i: int| 0 <= i < self.registry@.len() ==> #[trigger] self.registry@[i].1 == self.group.kinds()[i]
    }

    /// A layer with an empty, disabled group and no counters, and the guard
    /// that flushes its output to `file`.
    pub fn with_file(file: &str) -> (r: Result<(PerfLayer, LifecycleGuard), PerfError>)
        ensures
            r matches Ok((l, g)) ==> l.wf() && l.counters() == Seq::<(Seq<char>, EventKind)>::empty()
                && !l.is_enabled() && l.active_spans() == Seq::<crate::span::ActiveSpan>::empty()
                && g.destination_view() == file@ && !g.is_finalized(),
            r matches Err(e) ==> e == PerfError::ResourceUnavailable,
    {
        let group = CounterGroup::create()?;
        let layer = PerfLayer { group, registry: Registry::new(), spans: SpanTracker::new() };
        Ok((layer, LifecycleGuard::new(file)))
    }

    /// Adds a counter of `kind` to the group under `name`. Refused with
    /// `DuplicateName` when the name is taken, then with `InvalidState` when
    /// the group is already enabled; `ResourceUnavailable` when the system
    /// refuses the counter.
    pub fn with_perf_event(self, name: &str, kind: EventKind) -> (r: Result<PerfLayer, PerfError>)
        requires
            self.wf(),
            self.counters().len() < usize::MAX,
        ensures
            r matches Ok(l) ==> l.wf() && l.counters() == self.counters().push((name@, kind))
                && l.is_enabled() == self.is_enabled() && l.active_spans() == self.active_spans(),
            r matches Err(e) ==> (e == PerfError::DuplicateName <==> index_of(self.counters(), name@) is Some),
            r matches Err(e) ==> (e == PerfError::InvalidState
                <==> index_of(self.counters(), name@) is None && self.is_enabled()),
            r matches Err(e) ==> e == PerfError::DuplicateName || e == PerfError::InvalidState
                || e == PerfError::ResourceUnavailable,
            index_of(self.counters(), name@) is Some ==> r is Err,
            self.is_enabled() ==> r is Err,
    {
        let mut layer = self;
        if layer.registry.position(name).is_some() {
            return Err(PerfError::DuplicateName);
        }
        layer.group.add_counter(kind)?;
        let ghost before = layer.registry@;
        let res = layer.registry.register(name, kind);
        assert(res is Ok);
        assert(forall|i: int| 0 <= i < before.len() ==> #[trigger] layer.registry@[i] == before[i]);
        Ok(layer)
    }

    /// The event of the counter registered under `name`; `NotFound` when
    /// there is none.
    pub fn lookup(&self, name: &str) -> (r: Result<EventKind, PerfError>)
        requires
            self.wf(),
        ensures
            r == (match kind_of(self.counters(), name@) {
                Some(k) => Ok::<EventKind, PerfError>(k),
                None => Err(PerfError::NotFound),
            }),
    {
        self.registry.lookup(name)
    }

    /// Starts all counters of the group at once.
    pub fn enable(&mut self) -> (r: Result<(), PerfError>)
        requires
            old(self).wf(),
        ensures
            final(self).wf(),
            final(self).counters() == old(self).counters(),
            final(self).active_spans() == old(self).active_spans(),
            r is Ok ==> final(self).is_enabled(),
            r is Err ==> r == Err::<(), PerfError>(PerfError::ResourceUnavailable)
                && final(self).is_enabled() == old(self).is_enabled(),
    {
        self.group.enable()
    }

    /// Stops all counters of the group at once.
    pub fn disable(&mut self) -> (r: Result<(), PerfError>)
        requires
            old(self).wf(),
        ensures
            final(self).wf(),
            final(self).counters() == old(self).counters(),
            final(self).active_spans() == old(self).active_spans(),
            r is Ok ==> !final(self).is_enabled(),
            r is Err ==> r == Err::<(), PerfError>(PerfError::ResourceUnavailable)
                && final(self).is_enabled() == old(self).is_enabled(),
    {
        self.group.disable()
    }

    /// Span `id` starts: the group is reset, so that what is read at the
    /// span's end counts from here. A span already active cannot start again.
    pub fn on_span_start(&mut self, id: u64) -> (r: Result<(), PerfError>)
        requires
            old(self).wf(),
            old(self).active_spans().len() < usize::MAX,
        ensures
            final(self).wf(),
            final(self).counters() == old(self).counters(),
            final(self).is_enabled() == old(self).is_enabled(),
            span_pos(old(self).active_spans(), id) is Some
                ==> r == Err::<(), PerfError>(PerfError::InvalidState)
                && final(self).active_spans() == old(self).active_spans(),
            r is Ok ==> final(self).active_spans() == started(old(self).active_spans(), id),
            r is Err ==> final(self).active_spans() == old(self).active_spans(),
            r matches Err(e) ==> e == PerfError::InvalidState || e == PerfError::ResourceUnavailable,
            span_pos(old(self).active_spans(), id) is None ==> r != Err::<(), PerfError>(PerfError::InvalidState),
    {
        if self.spans.is_active(id) {
            return Err(PerfError::InvalidState);
        }
        self.group.reset()?;
        self.spans.start(id)
    }

    /// Span `id` ends: the group is read and the span closed. The span is
    /// closed even where the read fails, so that it cannot end twice.
    pub fn on_span_end(&mut self, id: u64) -> (r: Result<SpanRecord, PerfError>)
        requires
            old(self).wf(),
        ensures
            final(self).wf(),
            final(self).counters() == old(self).counters(),
            final(self).is_enabled() == old(self).is_enabled(),
            final(self).active_spans() == ended(old(self).active_spans(), id),
            span_pos(final(self).active_spans(), id) is None,
            span_pos(old(self).active_spans(), id) is None
                ==> (r matches Err(e) && e == PerfError::InvalidState),
            r matches Ok(rec) ==> rec.span == id && rec.counts@.len() == old(self).counters().len()
                && ends_clean(old(self).active_spans(), id) == Some(rec.clean),
            r matches Err(e) ==> e == PerfError::InvalidState || e == PerfError::ResourceUnavailable,
            span_pos(old(self).active_spans(), id) is Some
                ==> !(r matches Err(e) && e == PerfError::InvalidState),
    {
        if !self.spans.is_active(id) {
            return Err(PerfError::InvalidState);
        }
        let counts = self.group.read();
        let clean = self.spans.end(id)?;
        let counts = counts?;
        Ok(SpanRecord { span: id, clean, counts })
    }

    /// Span `id` is abandoned before its end: it is closed and the group
    /// read, the counts discarded, so that the next span starts from a read
    /// baseline. A span that is not active cannot be abandoned.
    pub fn on_span_abort(&mut self, id: u64) -> (r: Result<(), PerfError>)
        requires
            old(self).wf(),
        ensures
            final(self).wf(),
            final(self).counters() == old(self).counters(),
            final(self).is_enabled() == old(self).is_enabled(),
            final(self).active_spans() == ended(old(self).active_spans(), id),
            span_pos(final(self).active_spans(), id) is None,
            span_pos(old(self).active_spans(), id) is None
                ==> r == Err::<(), PerfError>(PerfError::InvalidState),
            r matches Err(e) ==> e == PerfError::InvalidState || e == PerfError::ResourceUnavailable,
            span_pos(old(self).active_spans(), id) is Some
                ==> r != Err::<(), PerfError>(PerfError::InvalidState),
    {
        match self.on_span_end(id) {
            Ok(_) => Ok(()),
            Err(e) => Err(e),
        }
    }

    /// The report of a span's record: its id, every counter's raw value and
    /// instructions per cycle, marked when the span overlapped another.
    /// `NotFound` when `insns` or `cycles` is not registered.
    pub fn span_report(&self, record: &SpanRecord) -> (r: Result<String, PerfError>)
        requires
            self.wf(),
            record.counts@.len() == self.counters().len(),
        ensures
            r matches Ok(s) ==> s@ == span_text(self.counters(), record.span, record.counts@, record.clean),
            r is Err <==> !has_ipc_counters(self.counters()),
            r matches Err(e) ==> e == PerfError::NotFound,
    {
        if self.registry.position("insns").is_none() || self.registry.position("cycles").is_none() {
            return Err(PerfError::NotFound);
        }
        proof {
            reveal_strlit("{ span: ");
            reveal_strlit(", ");
            reveal_strlit(" (overlapped)");
        }
        let mut text = String::from_str("{ span: ");
        push_decimal(&mut text, record.span as u128);
        text.append(", ");
        self.registry.push_body(&mut text, &record.counts);
        if !record.clean {
            text.append(" (overlapped)");
        }
        Ok(text)
    }

    /// Reads the group now and reports every counter's raw value and
    /// instructions per cycle. `NotFound` exactly when `insns` or `cycles` is
    /// not registered; otherwise only a failed read makes it fail.
    pub fn emit_ipc(&mut self) -> (r: Result<String, PerfError>)
        requires
            old(self).wf(),
        ensures
            final(self).wf(),
            final(self).counters() == old(self).counters(),
            final(self).is_enabled() == old(self).is_enabled(),
            final(self).active_spans() == old(self).active_spans(),
            r == Err::<String, PerfError>(PerfError::NotFound) <==> !has_ipc_counters(old(self).counters()),
            r matches Ok(s) ==> exists|counts: Seq<u64>|
                counts.len() == old(self).counters().len()
                && s@ == #[trigger] ipc_report_text(old(self).counters(), counts),
            r matches Err(e) ==> e == PerfError::NotFound || e == PerfError::ResourceUnavailable,
    {
        if self.registry.position("insns").is_none() || self.registry.position("cycles").is_none() {
            return Err(PerfError::NotFound);
        }
        let counts = self.group.read()?;
        self.registry.ipc_report(&counts)
    }

    /// The layer for instructions per cycle: counters `cycles` and `insns`
    /// in one group, enabled, with the guard that flushes to `file`.
    pub fn ipc_session(file: &str) -> (r: Result<(PerfLayer, LifecycleGuard), PerfError>)
        ensures
            r matches Ok((l, g)) ==> l.wf()
                && l.counters() == seq![("cycles"@, EventKind::CpuCycles), ("insns"@, EventKind::Instructions)]
                && l.is_enabled() && l.active_spans() == Seq::<crate::span::ActiveSpan>::empty()
                && g.destination_view() == file@ && !g.is_finalized(),
            r matches Err(e) ==> e == PerfError::ResourceUnavailable,
    {
        proof {
            reveal_strlit("cycles");
            reveal_strlit("insns");
        }
        let (layer, guard) = PerfLayer::with_file(file)?;
        let layer = layer.with_perf_event("cycles", EventKind::CpuCycles)?;
        assert(index_of(layer.counters(), "insns"@) is None) by {
            let c = layer.counters();
            assert(c.len() == 1);
            assert(c.last().0 == "cycles"@);
            assert(c.last().0[0] != "insns"@[0]);
            assert(c.last().0 != "insns"@);
            assert(index_of(c.drop_last(), "insns"@) is None);
        }
        let mut layer = layer.with_perf_event("insns", EventKind::Instructions)?;
        layer.enable()?;
        assert(layer.counters() =~= seq![("cycles"@, EventKind::CpuCycles), ("insns"@, EventKind::Instructions)]);
        Ok((layer, guard))
    }
}

} // verus!
