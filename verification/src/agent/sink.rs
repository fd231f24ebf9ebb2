//! The bounded outage buffer in front of the warehouse writer.
//!
//! Each cycle's rows are appended to a per-table pending queue, then the
//! queues are drained front-first by the writer. A failed insert leaves the
//! batch queued for the next cycle. The buffer is capped by total rows;
//! beyond the cap the oldest batches are dropped (bounded memory).

use vstd::prelude::*;
use std::collections::VecDeque;

verus! {

/// Total number of rows in a sequence of batches.
pub open spec fn total_rows<R>(bs: Seq<Vec<R>>) -> nat
    decreases bs.len(),
{
    if bs.len() == 0 {
        0
    } else {
        bs[0].len() as nat + total_rows(bs.drop_first())
    }
}

/// How many batches, oldest first, must go for at most `cap` rows to remain.
pub open spec fn drop_count<R>(bs: Seq<Vec<R>>, cap: nat) -> nat
    decreases bs.len(),
{
    if bs.len() == 0 || total_rows(bs) <= cap {
        0
    } else {
        1 + drop_count(bs.drop_first(), cap)
    }
}

pub proof fn lemma_total_rows_push<R>(bs: Seq<Vec<R>>, b: Vec<R>)
    ensures
        total_rows(bs.push(b)) == total_rows(bs) + b.len(),
    decreases bs.len(),
{
    if bs.len() > 0 {
        assert(bs.push(b).drop_first() =~= bs.drop_first().push(b));
        assert(bs.push(b)[0] == bs[0]);
        lemma_total_rows_push(bs.drop_first(), b);
    } else {
        assert(bs.push(b).drop_first() =~= Seq::<Vec<R>>::empty());
        assert(bs.push(b)[0] == b);
        assert(total_rows(Seq::<Vec<R>>::empty()) == 0);
    }
}

pub proof fn lemma_total_rows_split<R>(bs: Seq<Vec<R>>, k: int)
    requires
        0 <= k <= bs.len(),
    ensures
        total_rows(bs) == total_rows(bs.take(k)) + total_rows(bs.skip(k)),
    decreases k,
{
    if k == 0 {
        assert(bs.skip(0) =~= bs);
        assert(bs.take(0).len() == 0);
    } else {
        lemma_total_rows_split(bs.drop_first(), k - 1);
        assert(bs.take(k).drop_first() =~= bs.drop_first().take(k - 1));
        assert(bs.skip(k) =~= bs.drop_first().skip(k - 1));
        assert(bs.take(k)[0] == bs[0]);
    }
}

pub proof fn lemma_drop_count_bounds<R>(bs: Seq<Vec<R>>, cap: nat)
    ensures
        drop_count(bs, cap) <= bs.len(),
        total_rows(bs.skip(drop_count(bs, cap) as int)) <= cap,
    decreases bs.len(),
{
    if bs.len() == 0 || total_rows(bs) <= cap {
        assert(bs.skip(0) =~= bs);
    } else {
        lemma_drop_count_bounds(bs.drop_first(), cap);
        let k = drop_count(bs.drop_first(), cap) as int;
        assert(bs.skip(k + 1) =~= bs.drop_first().skip(k));
    }
}

/// Law of the cap: the batches that `enforce_cap` keeps are the newest ones,
/// they hold at most `cap` rows, and keeping one more old batch would exceed
/// the cap (nothing is dropped that did not have to be). Under the cap,
/// nothing is dropped.
pub proof fn law_cap_drops_only_oldest_needed<R>(bs: Seq<Vec<R>>, cap: nat)
    ensures
        ({
            let k = drop_count(bs, cap) as int;
            &&& 0 <= k <= bs.len()
            &&& total_rows(bs.skip(k)) <= cap
            &&& k > 0 ==> total_rows(bs.skip(k - 1)) > cap
            &&& total_rows(bs) <= cap ==> k == 0
        }),
    decreases bs.len(),
{
    lemma_drop_count_bounds(bs, cap);
    if bs.len() > 0 && total_rows(bs) > cap {
        law_cap_drops_only_oldest_needed(bs.drop_first(), cap);
        let k = drop_count(bs.drop_first(), cap) as int;
        assert(bs.skip(k + 1) =~= bs.drop_first().skip(k));
        if k > 0 {
            assert(bs.skip(k) =~= bs.drop_first().skip(k - 1));
        } else {
            assert(bs.skip(0) =~= bs);
        }
    }
}

/// The queue after a batch arrives: an empty batch is not queued.
pub open spec fn queued<R>(bs: Seq<Vec<R>>, batch: Vec<R>) -> Seq<Vec<R>> {
    if batch.len() == 0 {
        bs
    } else {
        bs.push(batch)
    }
}

/// Rows waiting for one table, as batches in arrival order.
pub struct Pending<R> {
    pub table: &'static str,
    pub batches: VecDeque<Vec<R>>,
    pub rows: usize,
}

impl<R> Pending<R> {
    /// `rows` counts the queued rows and no queued batch is empty.
    pub open spec fn wf(&self) -> bool {
        &&& self.rows == total_rows(self.batches@)
        &&& forall|i: int| 0 <= i < self.batches@.len() ==> self.batches@[i].len() > 0
    }

    pub fn new(table: &'static str) -> (p: Self)
        ensures
            p.wf(),
            p.table == table,
            p.batches@.len() == 0,
            p.rows == 0,
    {
        Self { table, batches: VecDeque::new(), rows: 0 }
    }

    /// Queues a batch; an empty batch is not queued.
    pub fn push(&mut self, batch: Vec<R>)
        requires
            old(self).wf(),
            old(self).rows + batch.len() <= usize::MAX,
        ensures
            final(self).wf(),
            final(self).table == old(self).table,
            batch.len() == 0 ==> final(self).batches@ == old(self).batches@,
            batch.len() > 0 ==> final(self).batches@ == old(self).batches@.push(batch),
            final(self).rows == old(self).rows + batch.len(),
    {
        if batch.len() == 0 {
            return;
        }
        proof {
            lemma_total_rows_push(self.batches@, batch);
        }
        self.rows = self.rows + batch.len();
        self.batches.push_back(batch);
    }

    /// Drops oldest batches until at most `cap` rows remain. Returns rows dropped.
    pub fn enforce_cap(&mut self, cap: usize) -> (dropped: usize)
        requires
            old(self).wf(),
        ensures
            final(self).wf(),
            final(self).table == old(self).table,
            final(self).batches@ == old(self).batches@.skip(
                drop_count(old(self).batches@, cap as nat) as int,
            ),
            dropped == total_rows(
                old(self).batches@.take(drop_count(old(self).batches@, cap as nat) as int),
            ),
            final(self).rows == old(self).rows - dropped,
            final(self).rows <= cap,
    {
        let ghost orig = self.batches@;
        let mut dropped: usize = 0;
        let ghost mut n: int = 0;
        proof {
            lemma_drop_count_bounds(orig, cap as nat);
            assert(orig.skip(0) =~= orig);
            assert(orig.take(0).len() == 0);
        }
        while self.rows > cap
            invariant
                0 <= n <= orig.len(),
                self.wf(),
                self.table == old(self).table,
                self.batches@ == orig.skip(n),
                dropped == total_rows(orig.take(n)),
                self.rows + dropped == total_rows(orig),
                total_rows(orig) == old(self).rows,
                drop_count(orig, cap as nat) == n + drop_count(self.batches@, cap as nat),
            decreases self.rows,
        {
            let ghost cur = self.batches@;
            assert(cur.len() > 0);
            let oldest = match self.batches.pop_front() {
                Some(b) => b,
                None => {
                    assert(false);
                    return dropped;
                },
            };
            proof {
                assert(self.batches@ =~= cur.drop_first());
                assert(cur.drop_first() =~= orig.skip(n + 1));
                lemma_total_rows_split(orig, n);
                lemma_total_rows_split(orig, n + 1);
                assert(orig.take(n + 1) =~= orig.take(n).push(oldest));
                lemma_total_rows_push(orig.take(n), oldest);
                assert forall|i: int| 0 <= i < self.batches@.len() implies self.batches@[i].len()
                    > 0 by {
                    assert(self.batches@[i] == cur[i + 1]);
                }
                n = n + 1;
            }
            self.rows = self.rows - oldest.len();
            dropped = dropped + oldest.len();
        }
        proof {
            lemma_drop_count_bounds(self.batches@, cap as nat);
        }
        dropped
    }

    /// Removes the oldest batch after it has been written; returns it.
    pub fn complete_front(&mut self) -> (done: Option<Vec<R>>)
        requires
            old(self).wf(),
        ensures
            final(self).wf(),
            final(self).table == old(self).table,
            match done {
                Some(b) => old(self).batches@.len() > 0 && b == old(self).batches@[0]
                    && final(self).batches@ == old(self).batches@.drop_first() && final(self).rows
                    == old(self).rows - b.len(),
                None => old(self).batches@.len() == 0 && final(self).batches@ == old(
                    self,
                ).batches@ && final(self).rows == old(self).rows,
            },
    {
        let ghost cur = self.batches@;
        match self.batches.pop_front() {
            Some(b) => {
                proof {
                    assert(self.batches@ =~= cur.drop_first());
                    assert forall|i: int| 0 <= i < self.batches@.len() implies self.batches@[i].len()
                        > 0 by {
                        assert(self.batches@[i] == cur[i + 1]);
                    }
                }
                self.rows = self.rows - b.len();
                Some(b)
            },
            None => None,
        }
    }
}

/// The three per-table queues of the writer. Pod metadata is never dropped
/// (it is tiny, and labels are needed for tenancy); the usage tables share the
/// cap, nine tenths for pod usage and one tenth for node usage.
pub struct Buffers<P, N, M> {
    pub pod_usage: Pending<P>,
    pub node_usage: Pending<N>,
    pub pod_meta: Pending<M>,
}

impl<P, N, M> Buffers<P, N, M> {
    pub open spec fn wf(&self) -> bool {
        &&& self.pod_usage.wf()
        &&& self.node_usage.wf()
        &&& self.pod_meta.wf()
    }

    /// Rows queued across the three tables.
    pub open spec fn buffered(&self) -> nat {
        (self.pod_usage.rows + self.node_usage.rows + self.pod_meta.rows) as nat
    }

    pub fn new() -> (b: Self)
        ensures
            b.wf(),
            b.buffered() == 0,
            b.pod_usage.table@ == "pod_usage"@,
            b.node_usage.table@ == "node_usage"@,
            b.pod_meta.table@ == "pod_meta"@,
    {
        Buffers {
            pod_usage: Pending::new("pod_usage"),
            node_usage: Pending::new("node_usage"),
            pod_meta: Pending::new("pod_meta"),
        }
    }

    /// Queues one cycle's rows and enforces the cap; returns the rows dropped.
    pub fn push_cycle(
        &mut self,
        pod_usage: Vec<P>,
        node_usage: Vec<N>,
        pod_meta: Vec<M>,
        max_buffered_rows: usize,
    ) -> (dropped: usize)
        requires
            old(self).wf(),
            old(self).pod_usage.rows + pod_usage.len() <= usize::MAX,
            old(self).node_usage.rows + node_usage.len() <= usize::MAX,
            old(self).pod_meta.rows + pod_meta.len() <= usize::MAX,
            old(self).pod_usage.rows + pod_usage.len() + old(self).node_usage.rows
                + node_usage.len() <= usize::MAX,
        ensures
            final(self).wf(),
            final(self).pod_usage.table == old(self).pod_usage.table,
            final(self).node_usage.table == old(self).node_usage.table,
            final(self).pod_meta.table == old(self).pod_meta.table,
            final(self).pod_usage.rows <= max_buffered_rows * 9 / 10,
            final(self).node_usage.rows <= max_buffered_rows / 10,
            final(self).pod_usage.batches@ == queued(old(self).pod_usage.batches@, pod_usage).skip(
                drop_count(
                    queued(old(self).pod_usage.batches@, pod_usage),
                    (max_buffered_rows * 9 / 10) as nat,
                ) as int,
            ),
            final(self).node_usage.batches@ == queued(old(self).node_usage.batches@, node_usage).skip(
                drop_count(
                    queued(old(self).node_usage.batches@, node_usage),
                    (max_buffered_rows / 10) as nat,
                ) as int,
            ),
            final(self).pod_meta.rows == old(self).pod_meta.rows + pod_meta.len(),
            pod_meta.len() > 0 ==> final(self).pod_meta.batches@ == old(
                self,
            ).pod_meta.batches@.push(pod_meta),
            pod_meta.len() == 0 ==> final(self).pod_meta.batches@ == old(self).pod_meta.batches@,
            final(self).pod_usage.rows + final(self).node_usage.rows + dropped == old(
                self,
            ).pod_usage.rows + pod_usage.len() + old(self).node_usage.rows + node_usage.len(),
    {
        self.pod_usage.push(pod_usage);
        self.node_usage.push(node_usage);
        self.pod_meta.push(pod_meta);
        let pod_cap = (max_buffered_rows / 10) * 9 + (max_buffered_rows % 10) * 9 / 10;
        assert(pod_cap == max_buffered_rows * 9 / 10) by (nonlinear_arith)
            requires
                pod_cap == (max_buffered_rows / 10) * 9 + (max_buffered_rows % 10) * 9 / 10,
        ;
        let a = self.pod_usage.enforce_cap(pod_cap);
        let b = self.node_usage.enforce_cap(max_buffered_rows / 10);
        a + b
    }

    /// Rows queued across the three tables.
    pub fn buffered_rows(&self) -> (n: usize)
        requires
            self.buffered() <= usize::MAX,
        ensures
            n == self.buffered(),
    {
        self.pod_usage.rows + self.node_usage.rows + self.pod_meta.rows
    }
}

} // verus!
