//! The sweep scheduler: walks the product list round and round, admitting
//! one check per product, in batches of at most the concurrency cap, each
//! batch drained whole before the next one opens.

use vstd::prelude::*;
use crate::notice::ids_of;
use crate::text::{trim, trimmed};

verus! {

/// What the driver loop does next.
#[derive(Debug, PartialEq, Eq)]
pub enum SchedulerAction {
    /// Start a check of this product.
    Admit(String),
    /// Wait until every admitted check has finished.
    DrainBatch,
    /// There is no product to check.
    Idle,
}

/// The scheduler in mathematical terms.
pub ghost struct SchedulerView {
    /// The products checked, in order, each sweep.
    pub products: Seq<Seq<char>>,
    /// The most checks outstanding at once.
    pub cap: nat,
    /// Position in `products` of the next product to admit.
    pub cursor: nat,
    /// Checks admitted since the last drain.
    pub outstanding: nat,
}

/// The product ids among configured entries: each non-blank entry, trimmed,
/// in order.
pub open spec fn active_products(entries: Seq<Seq<char>>) -> Seq<Seq<char>>
    decreases entries.len(),
{
    if entries.len() == 0 {
        Seq::<Seq<char>>::empty()
    } else {
        let rest = active_products(entries.drop_last());
        let t = trimmed(entries.last());
        if t.len() == 0 {
            rest
        } else {
            rest.push(t)
        }
    }
}

/// The scheduler after one step of the driver loop: unchanged with no
/// product, emptied when the batch is full, and otherwise one more check
/// outstanding with the cursor on the following product.
pub open spec fn next_view(v: SchedulerView) -> SchedulerView {
    if v.products.len() == 0 {
        v
    } else if v.outstanding >= v.cap {
        SchedulerView { outstanding: 0, ..v }
    } else {
        SchedulerView {
            cursor: (v.cursor + 1) % v.products.len(),
            outstanding: v.outstanding + 1,
            ..v
        }
    }
}

/// The scheduler after `k` steps of the driver loop.
pub open spec fn run_steps(v: SchedulerView, k: nat) -> SchedulerView
    decreases k,
{
    if k == 0 {
        v
    } else {
        next_view(run_steps(v, (k - 1) as nat))
    }
}

/// From a drained batch, the first `cap` steps admit the products that
/// follow the cursor, one after another and round the list, and the step
/// after them drains the whole batch before anything more is admitted.
pub proof fn lemma_batch_then_drain(v: SchedulerView, k: nat)
    requires
        v.cap > 0,
        v.products.len() > 0,
        v.cursor < v.products.len(),
        v.outstanding == 0,
        k <= v.cap,
    ensures
        run_steps(v, k).products == v.products,
        run_steps(v, k).cap == v.cap,
        run_steps(v, k).outstanding == k,
        run_steps(v, k).cursor as int == (v.cursor + k) as int % (v.products.len() as int),
        k == v.cap ==> next_view(run_steps(v, k)) == (SchedulerView {
            outstanding: 0,
            ..run_steps(v, k)
        }),
    decreases k,
{
    let n = v.products.len() as int;
    if k == 0 {
        vstd::arithmetic::div_mod::lemma_small_mod(v.cursor, v.products.len());
    } else {
        lemma_batch_then_drain(v, (k - 1) as nat);
        vstd::arithmetic::div_mod::lemma_add_mod_noop_right(1, v.cursor + k - 1, n);
    }
}

/// Drives the sweeps: which check to admit next, and when to drain.
pub struct SweepScheduler {
    products: Vec<String>,
    cap: usize,
    cursor: usize,
    outstanding: usize,
}

impl View for SweepScheduler {
    type V = SchedulerView;

    closed spec fn view(&self) -> SchedulerView {
        SchedulerView {
            products: ids_of(self.products@),
            cap: self.cap as nat,
            cursor: self.cursor as nat,
            outstanding: self.outstanding as nat,
        }
    }
}

impl SweepScheduler {
    /// A positive cap, never exceeded, and a cursor inside the product list.
    pub open spec fn wf(&self) -> bool {
        &&& self@.cap > 0
        &&& self@.outstanding <= self@.cap
        &&& (self@.cursor < self@.products.len() || (self@.products.len() == 0
            && self@.cursor == 0))
    }

    /// A scheduler over the non-blank entries of `entries`, with no check
    /// outstanding and the first sweep about to start.
    pub fn new(entries: &Vec<String>, cap: usize) -> (r: Self)
        requires
            cap > 0,
        ensures
            r.wf(),
            r@ == (SchedulerView {
                products: active_products(ids_of(entries@)),
                cap: cap as nat,
                cursor: 0,
                outstanding: 0,
            }),
    {
        let mut products: Vec<String> = Vec::new();
        let mut i: usize = 0;
        while i < entries.len()
            invariant
                i <= entries@.len(),
                ids_of(products@) == active_products(ids_of(entries@.subrange(0, i as int))),
            decreases entries@.len() - i,
        {
            let t = trim(entries[i].as_str());
            assert(ids_of(entries@.subrange(0, i + 1)).drop_last() =~= ids_of(
                entries@.subrange(0, i as int),
            ));
            if t.unicode_len() > 0 {
                products.push(t);
                assert(ids_of(products@) =~= active_products(
                    ids_of(entries@.subrange(0, i as int)),
                ).push(t@));
            }
            i = i + 1;
        }
        assert(entries@.subrange(0, entries@.len() as int) =~= entries@);
        SweepScheduler { products, cap, cursor: 0, outstanding: 0 }
    }

    /// Number of checks admitted since the last drain.
    pub fn outstanding(&self) -> (r: usize)
        ensures
            r as nat == self@.outstanding,
    {
        self.outstanding
    }

    /// The next step of the driver loop. With no product there is nothing to
    /// do; a full batch is drained first; otherwise the product under the
    /// cursor is admitted and the cursor moves on, back to the start after
    /// the last product.
    pub fn next_action(&mut self) -> (r: SchedulerAction)
        requires
            old(self).wf(),
        ensures
            final(self).wf(),
            final(self)@ == next_view(old(self)@),
            old(self)@.products.len() == 0 ==> r == SchedulerAction::Idle,
            old(self)@.products.len() > 0 && old(self)@.outstanding == old(self)@.cap ==> r
                == SchedulerAction::DrainBatch,
            old(self)@.products.len() > 0 && old(self)@.outstanding < old(self)@.cap ==> {
                &&& r is Admit
                &&& r->Admit_0@ == old(self)@.products[old(self)@.cursor as int]
            },
    {
        let n = self.products.len();
        if n == 0 {
            SchedulerAction::Idle
        } else if self.outstanding == self.cap {
            self.outstanding = 0;
            SchedulerAction::DrainBatch
        } else {
            let id = self.products[self.cursor].clone();
            assert(ids_of(self.products@)[self.cursor as int] == id@);
            proof {
                if self.cursor + 1 == n {
                    vstd::arithmetic::div_mod::lemma_mod_self_0(n as int);
                } else {
                    vstd::arithmetic::div_mod::lemma_small_mod((self.cursor + 1) as nat, n as nat);
                }
            }
            self.cursor = if self.cursor + 1 == n {
                0
            } else {
                self.cursor + 1
            };
            self.outstanding = self.outstanding + 1;
            SchedulerAction::Admit(id)
        }
    }
}

} // verus!
