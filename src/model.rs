use vstd::prelude::*;

verus! {

/// A model of how a counter group counts, after the semantics that
/// perf_event documents for `Group::enable`, `disable` and `reset`: enabling
/// starts counting and keeps the counts, disabling stops it and keeps them,
/// resetting zeroes them and changes nothing else. The laws below hold of
/// this model; the counts read from a real group are the hardware's, and no
/// contract of `CounterGroup` claims them.
///
/// What happens to a counter group between two reads.
pub enum GroupOp {
    Enable,
    Disable,
    Reset,
    /// `n` occurrences of the counted event.
    Work(u64),
}

/// The effect of one operation on a member's state: whether it counts, and
/// its count.
pub open spec fn step(st: (bool, nat), op: GroupOp) -> (bool, nat) {
    match op {
        GroupOp::Enable => (true, st.1),
        GroupOp::Disable => (false, st.1),
        GroupOp::Reset => (st.0, 0),
        GroupOp::Work(n) => if st.0 { (true, (st.1 + n) as nat) } else { st },
    }
}

/// A member's state after a sequence of operations.
pub open spec fn run(st: (bool, nat), ops: Seq<GroupOp>) -> (bool, nat)
    decreases ops.len(),
{
    if ops.len() == 0 {
        st
    } else {
        run(step(st, ops[0]), ops.drop_first())
    }
}

pub proof fn lemma_run_append(st: (bool, nat), a: Seq<GroupOp>, b: Seq<GroupOp>)
    ensures
        run(st, a + b) == run(run(st, a), b),
    decreases a.len(),
{
    if a.len() > 0 {
        assert((a + b).drop_first() =~= a.drop_first() + b);
        lemma_run_append(step(st, a[0]), a.drop_first(), b);
    } else {
        assert(a + b =~= b);
    }
}

/// In the model: enabling then resetting, with no work in between, leaves a
/// count of zero to be read, whatever came before.
pub proof fn lemma_enable_reset_reads_zero(st: (bool, nat))
    ensures
        run(st, seq![GroupOp::Enable, GroupOp::Reset]) == (true, 0nat),
{
    let ops = seq![GroupOp::Enable, GroupOp::Reset];
    assert(ops.drop_first() =~= seq![GroupOp::Reset]);
    assert(seq![GroupOp::Reset].drop_first() =~= Seq::<GroupOp>::empty());
    let s1 = step(st, GroupOp::Enable);
    assert(run(s1, seq![GroupOp::Reset]) == run(step(s1, GroupOp::Reset), Seq::<GroupOp>::empty()));
    assert(run(st, ops) == run(s1, seq![GroupOp::Reset]));
}

/// In the model: after a reset the count holds only what happened since: what came before
/// matters only through whether the group was counting.
pub proof fn lemma_reset_forgets_earlier(st: (bool, nat), earlier: Seq<GroupOp>, during: Seq<GroupOp>)
    ensures
        run(st, earlier + seq![GroupOp::Reset] + during) == run((run(st, earlier).0, 0nat), during),
{
    lemma_run_append(st, earlier + seq![GroupOp::Reset], during);
    lemma_run_append(st, earlier, seq![GroupOp::Reset]);
    let mid = run(st, earlier);
    assert(seq![GroupOp::Reset].drop_first() =~= Seq::<GroupOp>::empty());
    assert(run(mid, seq![GroupOp::Reset]) == run(step(mid, GroupOp::Reset), Seq::<GroupOp>::empty()));
}

/// In the model: an outer span that resets, works, lets an inner span reset,
/// and works on reads only what followed the inner span's reset.
pub proof fn lemma_nested_reset_overwrites(
    st: (bool, nat),
    outer_before: Seq<GroupOp>,
    after_inner_start: Seq<GroupOp>,
)
    ensures
        run(st, seq![GroupOp::Reset] + outer_before + seq![GroupOp::Reset] + after_inner_start)
            == run((run(st, seq![GroupOp::Reset] + outer_before).0, 0nat), after_inner_start),
{
    lemma_reset_forgets_earlier(st, seq![GroupOp::Reset] + outer_before, after_inner_start);
}

} // verus!
