//! The nesting-depth counter: a non-negative integer that equals the number
//! of currently-live timing guards, together with a model of counter
//! operation sequences and the laws that hold of balanced use.

use vstd::prelude::*;

verus! {

/// Saturating decrement: the counter never goes below zero. Decrementing a
/// zero counter would mean a guard was disposed twice, which the guard's
/// disposed flag rules out; saturation is the safe handling if it ever
/// happened.
pub open spec fn dec_depth(d: nat) -> nat {
    if d > 0 {
        (d - 1) as nat
    } else {
        0
    }
}

/// Counts the timing guards that are currently live. Each guard creation
/// increments it and each (first) disposal decrements it, so at any instant
/// it equals the number of guards not yet disposed.
pub struct DepthCounter {
    count: usize,
}

impl DepthCounter {
    /// The current depth: the number of live guards.
    pub closed spec fn depth(&self) -> nat {
        self.count as nat
    }

    /// A fresh counter, as at process start: no guard is live.
    pub fn new() -> (r: DepthCounter)
        ensures
            r.depth() == 0,
    {
        DepthCounter { count: 0 }
    }

    /// Records one more live guard and reports the depth it was created at.
    pub fn increment_and_get_previous(&mut self) -> (r: usize)
        requires
            old(self).depth() < usize::MAX,
        ensures
            r as nat == old(self).depth(),
            final(self).depth() == old(self).depth() + 1,
    {
        let prev = self.count;
        self.count = self.count + 1;
        prev
    }

    /// Records that one guard was disposed; saturates at zero.
    pub fn decrement(&mut self)
        ensures
            final(self).depth() == dec_depth(old(self).depth()),
    {
        if self.count > 0 {
            self.count = self.count - 1;
        }
    }

    /// Reads the current depth.
    pub fn current(&self) -> (r: usize)
        ensures
            r as nat == self.depth(),
    {
        self.count
    }
}

/// One atomic step taken on the depth counter: a guard creation or a guard
/// disposal.
pub enum DepthOp {
    Increment,
    Decrement,
}

/// The depth reached after running `ops` against a counter that starts at
/// `start`, with the saturating decrement the counter itself uses.
pub open spec fn depth_after(start: nat, ops: Seq<DepthOp>) -> nat
    decreases ops.len(),
{
    if ops.len() == 0 {
        start
    } else {
        let next = match ops[0] {
            DepthOp::Increment => start + 1,
            DepthOp::Decrement => dec_depth(start),
        };
        depth_after(next, ops.drop_first())
    }
}

/// How many of the steps are guard creations.
pub open spec fn count_incs(ops: Seq<DepthOp>) -> nat
    decreases ops.len(),
{
    if ops.len() == 0 {
        0
    } else {
        (if ops[0] is Increment {
            1nat
        } else {
            0nat
        }) + count_incs(ops.drop_first())
    }
}

/// How many of the steps are guard disposals.
pub open spec fn count_decs(ops: Seq<DepthOp>) -> nat
    decreases ops.len(),
{
    if ops.len() == 0 {
        0
    } else {
        (if ops[0] is Decrement {
            1nat
        } else {
            0nat
        }) + count_decs(ops.drop_first())
    }
}

/// No prefix of the steps disposes more guards than were created: the shape
/// every single-thread nested use has, and every interleaving of threads
/// whose disposals each follow their own creation.
pub open spec fn never_underflows(ops: Seq<DepthOp>) -> bool {
    forall|i: int| 0 <= i <= ops.len() ==> count_decs(#[trigger] ops.take(i)) <= count_incs(ops.take(i))
}

proof fn lemma_take_shift(ops: Seq<DepthOp>, i: int)
    requires
        ops.len() > 0,
        0 <= i <= ops.len() - 1,
    ensures
        ops.drop_first().take(i) == ops.take(i + 1).drop_first(),
{
    assert(ops.drop_first().take(i) =~= ops.take(i + 1).drop_first());
}

/// The counter never saturates while the disposals of every prefix are
/// covered by creations that came before them, and the depth reached is
/// exactly `start` plus the creations minus the disposals. `slack` is how
/// far disposals may outnumber creations within `ops` alone, owed to guards
/// already live at `start`.
proof fn lemma_depth_after_exact(start: nat, ops: Seq<DepthOp>, slack: nat)
    requires
        slack <= start,
        forall|i: int|
            0 <= i <= ops.len() ==> count_decs(#[trigger] ops.take(i)) <= count_incs(ops.take(i))
                + slack,
    ensures
        start + count_incs(ops) >= count_decs(ops),
        depth_after(start, ops) == start + count_incs(ops) - count_decs(ops),
    decreases ops.len(),
{
    if ops.len() == 0 {
    } else {
        let tail = ops.drop_first();
        assert(ops.take(ops.len() as int) =~= ops);
        if ops[0] is Increment {
            assert forall|i: int| 0 <= i <= tail.len() implies count_decs(#[trigger] tail.take(i))
                <= count_incs(tail.take(i)) + (slack + 1) by {
                lemma_take_shift(ops, i);
                assert(count_decs(ops.take(i + 1)) <= count_incs(ops.take(i + 1)) + slack);
            }
            lemma_depth_after_exact(start + 1, tail, slack + 1);
        } else {
            assert(ops.take(1).len() == 1);
            assert(ops.take(1).drop_first() =~= Seq::<DepthOp>::empty());
            assert(count_decs(Seq::<DepthOp>::empty()) == 0);
            assert(count_incs(Seq::<DepthOp>::empty()) == 0);
            assert(ops.take(1)[0] == ops[0]);
            assert(count_decs(ops.take(1)) == 1);
            assert(count_incs(ops.take(1)) == 0);
            assert(slack >= 1);
            assert(start >= 1);
            assert forall|i: int| 0 <= i <= tail.len() implies count_decs(#[trigger] tail.take(i))
                <= count_incs(tail.take(i)) + ((slack - 1) as nat) by {
                lemma_take_shift(ops, i);
                assert(count_decs(ops.take(i + 1)) <= count_incs(ops.take(i + 1)) + slack);
            }
            lemma_depth_after_exact((start - 1) as nat, tail, (slack - 1) as nat);
        }
    }
}

/// At every point of a run that never underflows, the depth over a counter
/// that starts at zero is exactly the creations so far minus the disposals
/// so far — in particular no decrement ever meets a zero counter, whatever
/// the interleaving of independent guard scopes that produced the run.
pub proof fn lemma_depth_never_negative(ops: Seq<DepthOp>, i: int)
    requires
        never_underflows(ops),
        0 <= i <= ops.len(),
    ensures
        count_incs(ops.take(i)) >= count_decs(ops.take(i)),
        depth_after(0, ops.take(i)) == count_incs(ops.take(i)) - count_decs(ops.take(i)),
{
    let pre = ops.take(i);
    assert forall|j: int| 0 <= j <= pre.len() implies count_decs(#[trigger] pre.take(j))
        <= count_incs(pre.take(j)) + 0nat by {
        assert(pre.take(j) =~= ops.take(j));
    }
    lemma_depth_after_exact(0, pre, 0);
}

/// Balanced use returns the counter to zero: a run that never underflows and
/// disposes every guard it creates — any nested single-thread sequence, and
/// any interleaving of such sequences across threads — ends at depth zero,
/// just as it started there.
pub proof fn lemma_balanced_returns_to_zero(ops: Seq<DepthOp>)
    requires
        never_underflows(ops),
        count_incs(ops) == count_decs(ops),
    ensures
        depth_after(0, ops) == 0,
{
    lemma_depth_never_negative(ops, ops.len() as int);
    assert(ops.take(ops.len() as int) =~= ops);
}

/// The counter operations of an interleaved run, each step labeled with the
/// thread that took it.
pub open spec fn run_ops(run: Seq<(DepthOp, int)>) -> Seq<DepthOp> {
    run.map_values(|p: (DepthOp, int)| p.0)
}

/// The steps thread `t` contributed to an interleaved run, in run order.
pub open spec fn thread_ops(run: Seq<(DepthOp, int)>, t: int) -> Seq<DepthOp>
    decreases run.len(),
{
    if run.len() == 0 {
        Seq::empty()
    } else {
        let rest = thread_ops(run.drop_last(), t);
        if run.last().1 == t {
            rest.push(run.last().0)
        } else {
            rest
        }
    }
}

proof fn lemma_count_push(s: Seq<DepthOp>, x: DepthOp)
    ensures
        count_decs(s.push(x)) == count_decs(s) + (if x is Decrement {
            1nat
        } else {
            0nat
        }),
        count_incs(s.push(x)) == count_incs(s) + (if x is Increment {
            1nat
        } else {
            0nat
        }),
    decreases s.len(),
{
    if s.len() == 0 {
        assert(s.push(x).len() == 1);
        assert(s.push(x)[0] == x);
        assert(s.push(x).drop_first() =~= Seq::<DepthOp>::empty());
        assert(count_decs(Seq::<DepthOp>::empty()) == 0);
        assert(count_incs(Seq::<DepthOp>::empty()) == 0);
        assert(count_decs(s) == 0);
        assert(count_incs(s) == 0);
    } else {
        lemma_count_push(s.drop_first(), x);
        assert(s.push(x).len() == s.len() + 1);
        assert(s.push(x)[0] == s[0]);
        assert(s.push(x).drop_first() =~= s.drop_first().push(x));
        assert(count_decs(s.push(x)) == (if s[0] is Decrement {
            1nat
        } else {
            0nat
        }) + count_decs(s.drop_first().push(x)));
        assert(count_incs(s.push(x)) == (if s[0] is Increment {
            1nat
        } else {
            0nat
        }) + count_incs(s.drop_first().push(x)));
        assert(count_decs(s) == (if s[0] is Decrement {
            1nat
        } else {
            0nat
        }) + count_decs(s.drop_first()));
        assert(count_incs(s) == (if s[0] is Increment {
            1nat
        } else {
            0nat
        }) + count_incs(s.drop_first()));
    }
}

proof fn lemma_thread_ops_push(run: Seq<(DepthOp, int)>, p: (DepthOp, int), t: int)
    ensures
        thread_ops(run.push(p), t) == if p.1 == t {
            thread_ops(run, t).push(p.0)
        } else {
            thread_ops(run, t)
        },
{
    let pushed = run.push(p);
    assert(pushed.drop_last() =~= run);
    assert(pushed.last() == p);
}

/// The creations thread by thread, for threads numbered below `n`.
spec fn sum_thread_incs(run: Seq<(DepthOp, int)>, n: nat) -> nat
    decreases n,
{
    if n == 0 {
        0
    } else {
        sum_thread_incs(run, (n - 1) as nat) + count_incs(thread_ops(run, n - 1))
    }
}

/// The disposals thread by thread, for threads numbered below `n`.
spec fn sum_thread_decs(run: Seq<(DepthOp, int)>, n: nat) -> nat
    decreases n,
{
    if n == 0 {
        0
    } else {
        sum_thread_decs(run, (n - 1) as nat) + count_decs(thread_ops(run, n - 1))
    }
}

proof fn lemma_sum_empty(run: Seq<(DepthOp, int)>, n: nat)
    requires
        run.len() == 0,
    ensures
        sum_thread_decs(run, n) == 0,
        sum_thread_incs(run, n) == 0,
    decreases n,
{
    if n > 0 {
        lemma_sum_empty(run, (n - 1) as nat);
        assert(thread_ops(run, n - 1) =~= Seq::<DepthOp>::empty());
    }
}

proof fn lemma_sum_push(run: Seq<(DepthOp, int)>, p: (DepthOp, int), n: nat)
    ensures
        sum_thread_decs(run.push(p), n) == sum_thread_decs(run, n) + (if 0 <= p.1 < n
            && p.0 is Decrement {
            1nat
        } else {
            0nat
        }),
        sum_thread_incs(run.push(p), n) == sum_thread_incs(run, n) + (if 0 <= p.1 < n
            && p.0 is Increment {
            1nat
        } else {
            0nat
        }),
    decreases n,
{
    if n > 0 {
        lemma_sum_push(run, p, (n - 1) as nat);
        lemma_thread_ops_push(run, p, n - 1);
        if p.1 == n - 1 {
            lemma_count_push(thread_ops(run, n - 1), p.0);
        }
    }
}

/// Splitting a run's creations and disposals by thread loses nothing, as long
/// as every step belongs to a thread numbered below `n`.
proof fn lemma_sum_decomposes(run: Seq<(DepthOp, int)>, n: nat)
    requires
        forall|j: int| 0 <= j < run.len() ==> 0 <= (#[trigger] run[j]).1 < n,
    ensures
        sum_thread_decs(run, n) == count_decs(run_ops(run)),
        sum_thread_incs(run, n) == count_incs(run_ops(run)),
    decreases run.len(),
{
    if run.len() == 0 {
        lemma_sum_empty(run, n);
        assert(run_ops(run) =~= Seq::<DepthOp>::empty());
    } else {
        let prefix = run.drop_last();
        let p = run.last();
        assert(run =~= prefix.push(p));
        lemma_sum_decomposes(prefix, n);
        lemma_sum_push(prefix, p, n);
        assert(run_ops(prefix.push(p)) =~= run_ops(prefix).push(p.0));
        lemma_count_push(run_ops(prefix), p.0);
    }
}

proof fn lemma_sum_le(run: Seq<(DepthOp, int)>, n: nat)
    requires
        forall|t: int|
            0 <= t < n ==> count_decs(#[trigger] thread_ops(run, t)) <= count_incs(
                thread_ops(run, t),
            ),
    ensures
        sum_thread_decs(run, n) <= sum_thread_incs(run, n),
    decreases n,
{
    if n > 0 {
        lemma_sum_le(run, (n - 1) as nat);
    }
}

/// What thread `t` has contributed after `i` steps of the run is a prefix of
/// what it contributes over the whole run.
proof fn lemma_thread_take_prefix(run: Seq<(DepthOp, int)>, i: int, t: int)
    requires
        0 <= i <= run.len(),
    ensures
        thread_ops(run.take(i), t).len() <= thread_ops(run, t).len(),
        thread_ops(run.take(i), t) == thread_ops(run, t).take(
            thread_ops(run.take(i), t).len() as int,
        ),
    decreases run.len() - i,
{
    if i == run.len() {
        assert(run.take(i) =~= run);
        assert(thread_ops(run, t) =~= thread_ops(run, t).take(thread_ops(run, t).len() as int));
    } else {
        lemma_thread_take_prefix(run, i + 1, t);
        assert(run.take(i + 1) =~= run.take(i).push(run[i]));
        lemma_thread_ops_push(run.take(i), run[i], t);
        let part_i = thread_ops(run.take(i), t);
        let part_next = thread_ops(run.take(i + 1), t);
        let part = thread_ops(run, t);
        assert(part_i =~= part_next.take(part_i.len() as int));
        assert(part_next =~= part.take(part_next.len() as int));
        assert(part_i =~= part.take(part_i.len() as int));
    }
}

/// Interleaving keeps the counter safe: however the scheduler weaves together
/// the steps of threads numbered below `n`, as long as each thread on its own
/// never disposes guards it has not created — as independent top-level guard
/// scopes never do — the combined run never underflows either.
pub proof fn lemma_interleaving_never_underflows(run: Seq<(DepthOp, int)>, n: nat)
    requires
        forall|j: int| 0 <= j < run.len() ==> 0 <= (#[trigger] run[j]).1 < n,
        forall|t: int| 0 <= t < n ==> never_underflows(#[trigger] thread_ops(run, t)),
    ensures
        never_underflows(run_ops(run)),
{
    assert forall|i: int| 0 <= i <= run_ops(run).len() implies count_decs(
        #[trigger] run_ops(run).take(i),
    ) <= count_incs(run_ops(run).take(i)) by {
        let pre = run.take(i);
        assert(run_ops(run).take(i) =~= run_ops(pre));
        assert forall|t: int| 0 <= t < n implies count_decs(#[trigger] thread_ops(pre, t))
            <= count_incs(thread_ops(pre, t)) by {
            lemma_thread_take_prefix(run, i, t);
            let part = thread_ops(run, t);
            let li = thread_ops(pre, t).len() as int;
            assert(count_decs(part.take(li)) <= count_incs(part.take(li)));
        }
        lemma_sum_decomposes(pre, n);
        lemma_sum_le(pre, n);
    }
}

/// The concurrent rebalancing law: interleaved threads that each never
/// underflow on their own, and that between them dispose every guard they
/// create, drive the counter from zero back to zero, with no decrement ever
/// meeting a zero counter along the way.
pub proof fn lemma_concurrent_scopes_rebalance(run: Seq<(DepthOp, int)>, n: nat)
    requires
        forall|j: int| 0 <= j < run.len() ==> 0 <= (#[trigger] run[j]).1 < n,
        forall|t: int| 0 <= t < n ==> never_underflows(#[trigger] thread_ops(run, t)),
        count_incs(run_ops(run)) == count_decs(run_ops(run)),
    ensures
        never_underflows(run_ops(run)),
        depth_after(0, run_ops(run)) == 0,
{
    lemma_interleaving_never_underflows(run, n);
    lemma_balanced_returns_to_zero(run_ops(run));
}

} // verus!
