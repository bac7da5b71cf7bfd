use vstd::prelude::*;
use vstd::string::*;
use crate::error::PerfError;
use crate::event::EventKind;
use crate::metric::{decimal, push_decimal, push_ratio, ratio_text};

verus! {

/// Position of the entry named `name`; names are unique in a well-formed
/// registry, so the search from the back finds the only one.
pub open spec fn index_of(entries: Seq<(Seq<char>, EventKind)>, name: Seq<char>) -> Option<int>
    decreases entries.len(),
{
    if entries.len() == 0 {
        None
    } else if entries.last().0 == name {
        Some(entries.len() - 1)
    } else {
        index_of(entries.drop_last(), name)
    }
}

/// The event registered under `name`, if any.
pub open spec fn kind_of(entries: Seq<(Seq<char>, EventKind)>, name: Seq<char>) -> Option<EventKind> {
    match index_of(entries, name) {
        Some(i) => Some(entries[i].1),
        None => None,
    }
}

pub open spec fn names_unique(entries: Seq<(Seq<char>, EventKind)>) -> bool {
    forall|i: int, j: int|
        0 <= i < j < entries.len() ==> #[trigger] entries[i].0 != #[trigger] entries[j].0
}

pub proof fn lemma_index_of_bounds(entries: Seq<(Seq<char>, EventKind)>, name: Seq<char>)
    ensures
        index_of(entries, name) matches Some(i) ==> 0 <= i < entries.len() && entries[i].0 == name,
        index_of(entries, name) is None ==> forall|i: int| 0 <= i < entries.len() ==> entries[i].0 != name,
    decreases entries.len(),
{
    if entries.len() > 0 && entries.last().0 != name {
        lemma_index_of_bounds(entries.drop_last(), name);
        assert forall|i: int| 0 <= i < entries.len() - 1 implies entries[i] == entries.drop_last()[i] by {}
    }
}

/// `name: value, ` for each of the first `n` counters, in registration order.
pub open spec fn fields_text(entries: Seq<(Seq<char>, EventKind)>, counts: Seq<u64>, n: nat) -> Seq<char>
    decreases n,
{
    if n == 0 {
        Seq::empty()
    } else {
        fields_text(entries, counts, (n - 1) as nat) + entries[n - 1].0 + ": "@
            + decimal(counts[n - 1] as nat) + ", "@
    }
}

/// The fields of a report after its opening: every counter's raw value, then
/// the ratio of `insns` to `cycles`.
pub open spec fn body_text(entries: Seq<(Seq<char>, EventKind)>, counts: Seq<u64>) -> Seq<char> {
    let i = index_of(entries, "insns"@).unwrap();
    let c = index_of(entries, "cycles"@).unwrap();
    fields_text(entries, counts, entries.len()) + "ipc: "@ + ratio_text(counts[i] as nat, counts[c] as nat)
        + " }"@
}

/// A report of a snapshot of the counts.
pub open spec fn ipc_report_text(entries: Seq<(Seq<char>, EventKind)>, counts: Seq<u64>) -> Seq<char> {
    "{ "@ + body_text(entries, counts)
}

/// Whether a report can be made: both `insns` and `cycles` are registered.
pub open spec fn has_ipc_counters(entries: Seq<(Seq<char>, EventKind)>) -> bool {
    index_of(entries, "insns"@) is Some && index_of(entries, "cycles"@) is Some
}

/// The counters known by name, each with its event; a counter's position is
/// its position among the members of the group.
pub struct Registry {
    names: Vec<String>,
    kinds: Vec<EventKind>,
}

impl View for Registry {
    type V = Seq<(Seq<char>, EventKind)>;

    closed spec fn view(&self) -> Seq<(Seq<char>, EventKind)> {
        Seq::new(self.names@.len(), |i: int| (self.names@[i]@, self.kinds@[i]))
    }
}

impl Registry {
    pub closed spec fn wf(&self) -> bool {
        self.names@.len() == self.kinds@.len() && names_unique(self@)
    }

    /// An empty registry.
    pub fn new() -> (r: Registry)
        ensures
            r.wf(),
            r@ == Seq::<(Seq<char>, EventKind)>::empty(),
    {
        let r = Registry { names: Vec::new(), kinds: Vec::new() };
        assert(r@ =~= Seq::<(Seq<char>, EventKind)>::empty());
        r
    }

    /// Number of registered counters.
    pub fn len(&self) -> (n: usize)
        requires
            self.wf(),
        ensures
            n == self@.len(),
    {
        self.names.len()
    }

    /// Position of the counter registered under `name`.
    pub fn position(&self, name: &str) -> (r: Option<usize>)
        requires
            self.wf(),
        ensures
            r matches Some(i) ==> index_of(self@, name@) == Some(i as int),
            r is None <==> index_of(self@, name@) is None,
    {
        let key = name.to_owned();
        let mut i: usize = self.names.len();
        assert(self@.subrange(0, i as int) =~= self@);
        while i > 0
            invariant
                self.wf(),
                i <= self@.len(),
                key@ == name@,
                index_of(self@.subrange(0, i as int), name@) == index_of(self@, name@),
            decreases i,
        {
            let ghost prefix = self@.subrange(0, i as int);
            assert(prefix.drop_last() =~= self@.subrange(0, i - 1));
            if self.names[i - 1] == key {
                return Some(i - 1);
            }
            i = i - 1;
        }
        None
    }

    /// The event of the counter registered under `name`; `NotFound` when
    /// there is none.
    pub fn lookup(&self, name: &str) -> (r: Result<EventKind, PerfError>)
        requires
            self.wf(),
        ensures
            r == (match kind_of(self@, name@) {
                Some(k) => Ok::<EventKind, PerfError>(k),
                None => Err(PerfError::NotFound),
            }),
    {
        proof { lemma_index_of_bounds(self@, name@); }
        match self.position(name) {
            Some(i) => Ok(self.kinds[i]),
            None => Err(PerfError::NotFound),
        }
    }

    /// Records `kind` under `name`; `DuplicateName` when the name is taken.
    pub fn register(&mut self, name: &str, kind: EventKind) -> (r: Result<usize, PerfError>)
        requires
            old(self).wf(),
            old(self)@.len() < usize::MAX,
        ensures
            final(self).wf(),
            r == (if index_of(old(self)@, name@) is Some {
                Err::<usize, PerfError>(PerfError::DuplicateName)
            } else {
                Ok(old(self)@.len() as usize)
            }),
            r is Ok ==> final(self)@ == old(self)@.push((name@, kind)),
            r is Err ==> final(self)@ == old(self)@,
    {
        proof { lemma_index_of_bounds(self@, name@); }
        if self.position(name).is_some() {
            return Err(PerfError::DuplicateName);
        }
        let i = self.names.len();
        let ghost before = self@;
        self.names.push(name.to_owned());
        self.kinds.push(kind);
        assert(self@ =~= before.push((name@, kind)));
        Ok(i)
    }

    /// Appends the body of a report of `counts`: each counter's name and
    /// raw value, then the ratio of `insns` to `cycles`.
    pub fn push_body(&self, out: &mut String, counts: &Vec<u64>)
        requires
            self.wf(),
            counts@.len() == self@.len(),
            has_ipc_counters(self@),
        ensures
            final(out)@ == old(out)@ + body_text(self@, counts@),
    {
        proof {
            lemma_index_of_bounds(self@, "insns"@);
            lemma_index_of_bounds(self@, "cycles"@);
            reveal_strlit(": ");
            reveal_strlit(", ");
            reveal_strlit("ipc: ");
            reveal_strlit(" }");
        }
        let ghost start = out@;
        let mut k: usize = 0;
        while k < self.names.len()
            invariant
                self.wf(),
                counts@.len() == self@.len(),
                k <= self@.len(),
                out@ == start + fields_text(self@, counts@, k as nat),
            decreases self@.len() - k,
        {
            out.append(self.names[k].as_str());
            out.append(": ");
            push_decimal(out, counts[k] as u128);
            out.append(", ");
            k = k + 1;
            assert(out@ =~= start + fields_text(self@, counts@, k as nat));
        }
        let i = self.position("insns").unwrap();
        let c = self.position("cycles").unwrap();
        out.append("ipc: ");
        push_ratio(out, counts[i], counts[c]);
        out.append(" }");
        assert(out@ =~= start + body_text(self@, counts@));
    }

    /// The report of a snapshot of the group's counts, in registration
    /// order: every counter's raw value, then instructions per cycle.
    /// `NotFound` when `insns` or `cycles` is not registered.
    pub fn ipc_report(&self, counts: &Vec<u64>) -> (r: Result<String, PerfError>)
        requires
            self.wf(),
            counts@.len() == self@.len(),
        ensures
            r matches Ok(s) ==> s@ == ipc_report_text(self@, counts@),
            r is Err <==> !has_ipc_counters(self@),
            r matches Err(e) ==> e == PerfError::NotFound,
    {
        if self.position("insns").is_none() || self.position("cycles").is_none() {
            return Err(PerfError::NotFound);
        }
        proof { reveal_strlit("{ "); }
        let mut out = String::from_str("{ ");
        self.push_body(&mut out, counts);
        Ok(out)
    }
}

/// Registering a fresh name and then looking it up gives back the event it
/// was registered with; registering a taken name again is refused.
pub proof fn lemma_register_lookup(entries: Seq<(Seq<char>, EventKind)>, name: Seq<char>, kind: EventKind)
    ensures
        kind_of(entries.push((name, kind)), name) == Some(kind),
        index_of(entries, name) is Some <==> kind_of(entries, name) is Some,
{
    assert(entries.push((name, kind)).last() == (name, kind));
}

} // verus!
