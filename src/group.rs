use perf_event::events::Hardware;
use perf_event::{Builder, Counter, Counts, Group};
use vstd::prelude::*;
use crate::error::PerfError;
use crate::event::EventKind;

verus! {

#[verifier::external_type_specification]
#[verifier::external_body]
pub struct ExGroup(Group);

#[verifier::external_type_specification]
#[verifier::external_body]
pub struct ExCounter(Counter);

#[verifier::external_type_specification]
#[verifier::external_body]
pub struct ExCounts(Counts);

/// Relies on perf_event::Group::new: opens an empty sampling group, or fails
/// when the system refuses it.
#[verifier::external_body]
fn open_group() -> (r: Option<Group>) {
    Group::new().ok()
}

/// Relies on perf_event::Builder::build: opens a counter of the given
/// hardware event as a member of `group`, or fails when the system refuses it.
#[verifier::external_body]
fn open_member(group: &mut Group, kind: EventKind) -> (r: Option<Counter>) {
    let hw = match kind {
        EventKind::CpuCycles => Hardware::CPU_CYCLES,
        EventKind::Instructions => Hardware::INSTRUCTIONS,
        EventKind::CacheReferences => Hardware::CACHE_REFERENCES,
        EventKind::CacheMisses => Hardware::CACHE_MISSES,
        EventKind::BranchInstructions => Hardware::BRANCH_INSTRUCTIONS,
        EventKind::BranchMisses => Hardware::BRANCH_MISSES,
        EventKind::BusCycles => Hardware::BUS_CYCLES,
        EventKind::StalledCyclesFrontend => Hardware::STALLED_CYCLES_FRONTEND,
        EventKind::StalledCyclesBackend => Hardware::STALLED_CYCLES_BACKEND,
        EventKind::RefCpuCycles => Hardware::REF_CPU_CYCLES,
    };
    Builder::new().kind(hw).group(group).build().ok()
}

/// Relies on perf_event::Group::enable: starts all members at once.
#[verifier::external_body]
fn group_enable(group: &mut Group) -> (ok: bool) {
    group.enable().is_ok()
}

/// Relies on perf_event::Group::disable: stops all members at once.
#[verifier::external_body]
fn group_disable(group: &mut Group) -> (ok: bool) {
    group.disable().is_ok()
}

/// Relies on perf_event::Group::reset: zeroes all members at once.
#[verifier::external_body]
fn group_reset(group: &mut Group) -> (ok: bool) {
    group.reset().is_ok()
}

/// Relies on perf_event::Counts::get: the value of `member` in a snapshot,
/// if it is a member of the group that was read.
#[verifier::external_body]
fn member_count(counts: &Counts, member: &Counter) -> (r: Option<u64>) {
    counts.get(member).copied()
}

/// A set of hardware counters that are enabled, disabled, reset and read
/// together, as one atomic unit.
pub struct CounterGroup {
    handle: Group,
    members: Vec<Counter>,
    kinds: Vec<EventKind>,
    enabled: bool,
    /// Set once a member failed to open: the group's expected size no longer
    /// matches its members, and it cannot be read again.
    broken: bool,
}

impl CounterGroup {
    /// The events of the members, in the order they were added.
    pub closed spec fn kinds(&self) -> Seq<EventKind> {
        self.kinds@
    }

    /// Whether the group has been enabled and not disabled since.
    pub closed spec fn enabled(&self) -> bool {
        self.enabled
    }

    /// Relies on perf_event::Group::read: one snapshot of all members at once.
    /// It asserts that the kernel answers for as many members as were ever
    /// attempted to join the group, which holds while no attempt has failed.
    #[verifier::external_body]
    fn snapshot(&mut self) -> (r: Option<Counts>)
        requires
            !old(self).broken,
        ensures
            final(self).members@ == old(self).members@,
            final(self).kinds@ == old(self).kinds@,
            final(self).enabled == old(self).enabled,
            final(self).broken == old(self).broken,
    {
        self.handle.read().ok()
    }

    /// Whether the group can still be read: no member ever failed to open.
    pub closed spec fn readable(&self) -> bool {
        !self.broken
    }

    pub closed spec fn wf(&self) -> bool {
        self.members@.len() == self.kinds@.len()
    }

    /// Opens an empty, disabled group.
    pub fn create() -> (r: Result<CounterGroup, PerfError>)
        ensures
            r matches Ok(g) ==> g.wf() && g.kinds() == Seq::<EventKind>::empty() && !g.enabled()
                && g.readable(),
            r matches Err(e) ==> e == PerfError::ResourceUnavailable,
    {
        match open_group() {
            Some(handle) => Ok(CounterGroup { handle, members: Vec::new(), kinds: Vec::new(), enabled: false, broken: false }),
            None => Err(PerfError::ResourceUnavailable),
        }
    }

    /// Adds a counter of `kind`; returns its position among the members.
    /// Members may be added only while the group is disabled. A counter that
    /// the system refuses leaves the group unreadable.
    pub fn add_counter(&mut self, kind: EventKind) -> (r: Result<usize, PerfError>)
        requires
            old(self).wf(),
        ensures
            final(self).wf(),
            final(self).enabled() == old(self).enabled(),
            old(self).enabled() ==> r == Err::<usize, PerfError>(PerfError::InvalidState),
            r matches Ok(i) ==> i == old(self).kinds().len()
                && final(self).kinds() == old(self).kinds().push(kind),
            r matches Err(e) ==> final(self).kinds() == old(self).kinds()
                && (e == PerfError::InvalidState || e == PerfError::ResourceUnavailable),
            r matches Err(e) ==> (e == PerfError::InvalidState <==> old(self).enabled()),
            r is Ok ==> final(self).readable() == old(self).readable(),
            r == Err::<usize, PerfError>(PerfError::InvalidState) ==> final(self).readable() == old(self).readable(),
            r == Err::<usize, PerfError>(PerfError::ResourceUnavailable) ==> !final(self).readable(),
    {
        if self.enabled {
            return Err(PerfError::InvalidState);
        }
        match open_member(&mut self.handle, kind) {
            Some(c) => {
                let i = self.kinds.len();
                self.members.push(c);
                self.kinds.push(kind);
                Ok(i)
            },
            None => {
                self.broken = true;
                Err(PerfError::ResourceUnavailable)
            },
        }
    }

    /// Starts all members counting; enabling an enabled group enables it again.
    pub fn enable(&mut self) -> (r: Result<(), PerfError>)
        requires
            old(self).wf(),
        ensures
            final(self).wf(),
            final(self).kinds() == old(self).kinds(),
            final(self).readable() == old(self).readable(),
            r is Ok ==> final(self).enabled(),
            r is Err ==> r == Err::<(), PerfError>(PerfError::ResourceUnavailable)
                && final(self).enabled() == old(self).enabled(),
    {
        if group_enable(&mut self.handle) {
            self.enabled = true;
            Ok(())
        } else {
            Err(PerfError::ResourceUnavailable)
        }
    }

    /// Stops all members counting; their counts are kept.
    pub fn disable(&mut self) -> (r: Result<(), PerfError>)
        requires
            old(self).wf(),
        ensures
            final(self).wf(),
            final(self).kinds() == old(self).kinds(),
            final(self).readable() == old(self).readable(),
            r is Ok ==> !final(self).enabled(),
            r is Err ==> r == Err::<(), PerfError>(PerfError::ResourceUnavailable)
                && final(self).enabled() == old(self).enabled(),
    {
        if group_disable(&mut self.handle) {
            self.enabled = false;
            Ok(())
        } else {
            Err(PerfError::ResourceUnavailable)
        }
    }

    /// Zeroes all members at once, without changing whether they count.
    pub fn reset(&mut self) -> (r: Result<(), PerfError>)
        requires
            old(self).wf(),
        ensures
            final(self).wf(),
            final(self).kinds() == old(self).kinds(),
            final(self).enabled() == old(self).enabled(),
            final(self).readable() == old(self).readable(),
            r is Err ==> r == Err::<(), PerfError>(PerfError::ResourceUnavailable),
    {
        if group_reset(&mut self.handle) {
            Ok(())
        } else {
            Err(PerfError::ResourceUnavailable)
        }
    }

    /// One snapshot of all members' counts, in member order; sampling goes on.
    /// An unreadable group gives `ResourceUnavailable` without being read.
    pub fn read(&mut self) -> (r: Result<Vec<u64>, PerfError>)
        requires
            old(self).wf(),
        ensures
            final(self).wf(),
            final(self).kinds() == old(self).kinds(),
            final(self).enabled() == old(self).enabled(),
            final(self).readable() == old(self).readable(),
            !old(self).readable() ==> r is Err,
            r matches Ok(v) ==> v@.len() == old(self).kinds().len(),
            r is Err ==> r == Err::<Vec<u64>, PerfError>(PerfError::ResourceUnavailable),
    {
        if self.broken {
            return Err(PerfError::ResourceUnavailable);
        }
        let snapshot = match self.snapshot() {
            Some(c) => c,
            None => return Err(PerfError::ResourceUnavailable),
        };
        let mut values: Vec<u64> = Vec::new();
        let mut i: usize = 0;
        while i < self.members.len()
            invariant
                self.wf(),
                self.kinds@ == old(self).kinds@,
                self.enabled == old(self).enabled,
                self.broken == old(self).broken,
                i <= self.members@.len(),
                values@.len() == i,
            decreases self.members@.len() - i,
        {
            match member_count(&snapshot, &self.members[i]) {
                Some(v) => values.push(v),
                None => return Err(PerfError::ResourceUnavailable),
            }
            i = i + 1;
        }
        Ok(values)
    }
}

} // verus!
