//! How the locators to fetch are shared out over worker processes.
//!
//! Fewer than three locators go to one worker. Otherwise each worker gets
//! `n / workers` of them, and the worker count is lowered to `n / 3` where
//! that share would be under three. Groups are cut greedily from the front:
//! a group takes one more than the share while what is left is not a
//! multiple of the share. What is left after the last group is dropped.
use vstd::prelude::*;
use vstd::arithmetic::div_mod::{lemma_div_is_ordered, lemma_div_multiples_vanish, lemma_fundamental_div_mod, lemma_mod_multiples_basic};

use crate::bytes::byte_views;

verus! {

/// Fewest locators that a worker gets when there are enough to share.
pub const MIN_PER_WORKER: usize = 3;

/// How many workers are started for `n` locators and at most `max` workers.
pub open spec fn worker_count(n: int, max: int) -> int {
    if n < 3 {
        1
    } else if n / max < 3 {
        n / 3
    } else {
        max
    }
}

/// The share of each worker before the remainder is spread.
pub open spec fn per_worker(n: int, max: int) -> int {
    if n < 3 {
        n
    } else {
        n / worker_count(n, max)
    }
}

/// The size of the next group when `rem` locators are left.
pub open spec fn chunk_size(rem: int, per: int) -> int {
    if per == 0 || rem % per == 0 {
        per
    } else {
        per + 1
    }
}

/// The first `count` groups cut from `xs`.
pub open spec fn chunks(xs: Seq<Seq<u8>>, per: int, count: nat) -> Seq<Seq<Seq<u8>>>
    decreases count,
{
    if count == 0 {
        Seq::empty()
    } else {
        let k = chunk_size(xs.len() as int, per);
        seq![xs.take(k)] + chunks(xs.skip(k), per, (count - 1) as nat)
    }
}

/// The groups one after another.
pub open spec fn joined(gs: Seq<Seq<Seq<u8>>>) -> Seq<Seq<u8>>
    decreases gs.len(),
{
    if gs.len() == 0 {
        Seq::empty()
    } else {
        joined(gs.drop_last()) + gs.last()
    }
}

/// The values of each group.
pub open spec fn group_views(gs: Seq<Vec<Vec<u8>>>) -> Seq<Seq<Seq<u8>>> {
    gs.map_values(|g: Vec<Vec<u8>>| byte_views(g@))
}

/// The locators of each worker, and how many were left over.
pub struct WorkerPlan {
    pub groups: Vec<Vec<Vec<u8>>>,
    pub dropped: usize,
}

proof fn lemma_step(rem: int, per: int, left: int)
    requires
        per >= 1,
        left >= 1,
        rem >= left * per,
    ensures
        per <= chunk_size(rem, per) <= rem,
        rem - chunk_size(rem, per) >= (left - 1) * per,
{
    assert(left * per >= per) by (nonlinear_arith)
        requires
            left >= 1,
            per >= 1,
    ;
    assert((left - 1) * per == left * per - per) by (nonlinear_arith);
    if rem % per != 0 {
        lemma_mod_multiples_basic(left, per);
        assert(rem != left * per);
    }
}

proof fn lemma_shares(n: int, max: int)
    requires
        n >= 0,
        max >= 1,
    ensures
        worker_count(n, max) >= 1,
        per_worker(n, max) >= 0,
        n >= worker_count(n, max) * per_worker(n, max),
        n >= 3 ==> per_worker(n, max) >= 3,
{
    if n >= 3 {
        let c = worker_count(n, max);
        if n / max < 3 {
            lemma_div_is_ordered(3, n, 3);
            assert(c >= 1);
            lemma_fundamental_div_mod(n, 3);
            assert(3 * c <= n);
            lemma_div_is_ordered(3 * c, n, c);
            lemma_div_multiples_vanish(3, c);
            assert((c * 3) / c == 3);
            assert(c * 3 == 3 * c);
        } else {
            assert(c == max);
        }
        lemma_fundamental_div_mod(n, c);
        assert(n % c >= 0);
        lemma_div_is_ordered(0, n, c);
    }
}

/// Shares `urls` out over at most `max_workers` workers.
pub fn plan_workers(urls: &Vec<Vec<u8>>, max_workers: usize) -> (r: WorkerPlan)
    requires
        max_workers >= 1,
    ensures
        group_views(r.groups@) == chunks(
            byte_views(urls@),
            per_worker(urls@.len() as int, max_workers as int),
            worker_count(urls@.len() as int, max_workers as int) as nat,
        ),
        r.groups@.len() == worker_count(urls@.len() as int, max_workers as int),
        r.dropped <= urls@.len(),
        joined(group_views(r.groups@)) == byte_views(urls@).take(urls@.len() - r.dropped),
        urls@.len() < 3 ==> r.groups@.len() == 1 && byte_views(r.groups@[0]@) == byte_views(urls@)
            && r.dropped == 0,
        urls@.len() >= 3 ==> forall|i: int| 0 <= i < r.groups@.len() ==> #[trigger] r.groups@[i]@.len() >= 3,
{
    let n = urls.len();
    let ghost xs = byte_views(urls@);
    let (count, per) = if n < MIN_PER_WORKER {
        (1usize, n)
    } else if n / max_workers < MIN_PER_WORKER {
        let c = n / MIN_PER_WORKER;
        (c, n / c)
    } else {
        (max_workers, n / max_workers)
    };
    proof {
        lemma_shares(n as int, max_workers as int);
    }
    assert(count == worker_count(n as int, max_workers as int));
    assert(per == per_worker(n as int, max_workers as int));
    let mut groups: Vec<Vec<Vec<u8>>> = Vec::new();
    let mut pos: usize = 0;
    let mut i: usize = 0;
    assert(group_views(groups@) + chunks(xs.skip(0), per as int, count as nat) =~= chunks(xs, per as int, count as nat)) by {
        assert(xs.skip(0) =~= xs);
    }
    assert(joined(group_views(groups@)) =~= xs.take(0));
    while i < count
        invariant
            n == urls@.len(),
            xs == byte_views(urls@),
            count >= 1,
            n >= 3 ==> per >= 3,
            n < 3 ==> count == 1 && per == n,
            0 <= i <= count,
            0 <= pos <= n,
            groups@.len() == i,
            n - pos >= (count - i) * per,
            group_views(groups@) + chunks(xs.skip(pos as int), per as int, (count - i) as nat)
                == chunks(xs, per as int, count as nat),
            joined(group_views(groups@)) == xs.take(pos as int),
            forall|j: int| 0 <= j < i ==> #[trigger] groups@[j]@.len() >= per,
        decreases count - i,
    {
        let rem = n - pos;
        proof {
            if per >= 1 {
                lemma_step(rem as int, per as int, (count - i) as int);
            }
        }
        let size = if per == 0 || rem % per == 0 {
            per
        } else {
            per + 1
        };
        assert(size == chunk_size(rem as int, per as int));
        assert(size <= rem);
        let mut g: Vec<Vec<u8>> = Vec::new();
        let mut j: usize = pos;
        while j < pos + size
            invariant
                n == urls@.len(),
                pos <= j <= pos + size <= n,
                byte_views(g@) == byte_views(urls@).subrange(pos as int, j as int),
                g@.len() == j - pos,
            decreases pos + size - j,
        {
            g.push(urls[j].clone());
            j += 1;
            assert(byte_views(g@) =~= byte_views(urls@).subrange(pos as int, j as int));
        }
        let ghost before = group_views(groups@);
        let ghost rest = xs.skip(pos as int);
        assert(rest.len() == rem);
        assert(rest.take(size as int) =~= byte_views(g@));
        assert(rest.skip(size as int) =~= xs.skip(pos + size));
        groups.push(g);
        assert(group_views(groups@) =~= before.push(byte_views(g@)));
        assert(chunks(rest, per as int, (count - i) as nat) =~= seq![rest.take(size as int)] + chunks(
            rest.skip(size as int),
            per as int,
            (count - i - 1) as nat,
        ));
        assert(group_views(groups@) + chunks(xs.skip(pos + size), per as int, (count - i - 1) as nat)
            =~= before + chunks(rest, per as int, (count - i) as nat));
        assert(group_views(groups@).drop_last() =~= before);
        assert(joined(group_views(groups@)) =~= xs.take(pos + size));
        if per >= 1 {
            assert(n - pos - size >= (count - i - 1) * per);
        } else {
            assert((count - i - 1) * per == 0) by (nonlinear_arith)
                requires
                    per == 0,
            ;
        }
        pos = pos + size;
        i += 1;
    }
    assert(chunks(xs.skip(pos as int), per as int, 0) =~= Seq::<Seq<Seq<u8>>>::empty());
    assert(group_views(groups@) =~= chunks(xs, per as int, count as nat));
    let dropped = n - pos;
    if n < 3 {
        assert(groups@[0]@.len() >= n);
        assert(byte_views(groups@[0]@) == xs.take(pos as int)) by {
            assert(group_views(groups@).drop_last() =~= Seq::<Seq<Seq<u8>>>::empty());
            assert(joined(Seq::<Seq<Seq<u8>>>::empty()) =~= Seq::<Seq<u8>>::empty());
            assert(joined(group_views(groups@)) =~= group_views(groups@)[0]);
        }
        assert(pos == n);
        assert(xs.take(pos as int) =~= xs);
    }
    WorkerPlan { groups, dropped }
}

/// The number of workers used by default on a machine with `cores` cores:
/// a quarter of them from 24 on, a third from 12, half from 4, else one.
pub fn default_workers(cores: usize) -> (r: usize)
    ensures
        r == (if cores >= 24 {
            cores / 4
        } else if cores >= 12 {
            cores / 3
        } else if cores >= 4 {
            cores / 2
        } else {
            1
        }),
        r >= 1,
{
    if cores >= 24 {
        cores / 4
    } else if cores >= 12 {
        cores / 3
    } else if cores >= 4 {
        cores / 2
    } else {
        1
    }
}

} // verus!
