use vstd::prelude::*;

verus! {

/// How many entries of `s` are set.
pub open spec fn count_true(s: Seq<bool>) -> nat
    decreases s.len(),
{
    if s.len() == 0 {
        0
    } else {
        count_true(s.drop_last()) + if s.last() {
            1nat
        } else {
            0nat
        }
    }
}

pub proof fn lemma_count_true_bounded(s: Seq<bool>)
    ensures
        count_true(s) <= s.len(),
    decreases s.len(),
{
    if s.len() > 0 {
        lemma_count_true_bounded(s.drop_last());
    }
}

pub proof fn lemma_count_true_push(s: Seq<bool>, b: bool)
    ensures
        count_true(s.push(b)) == count_true(s) + if b {
            1nat
        } else {
            0nat
        },
{
    assert(s.push(b).drop_last() =~= s);
}

pub proof fn lemma_count_true_set(s: Seq<bool>, i: int)
    requires
        0 <= i < s.len(),
        !s[i],
    ensures
        count_true(s.update(i, true)) == count_true(s) + 1,
    decreases s.len(),
{
    if i < s.len() - 1 {
        assert(s.update(i, true).drop_last() =~= s.drop_last().update(i, true));
        lemma_count_true_set(s.drop_last(), i);
    } else {
        assert(s.update(i, true).drop_last() =~= s.drop_last());
    }
}

pub proof fn lemma_count_true_all_false(n: nat)
    ensures
        count_true(Seq::new(n, |j: int| false)) == 0,
    decreases n,
{
    if n > 0 {
        assert(Seq::new(n, |j: int| false).drop_last() =~= Seq::new((n - 1) as nat, |j: int| false));
        lemma_count_true_all_false((n - 1) as nat);
    }
}

/// Which variables of one kind a query touches: one slot per allocated
/// variable, set once a constraint has referenced it, and the number of
/// slots set.
pub struct DensityTracker {
    bv: Vec<bool>,
    total_density: usize,
}

impl View for DensityTracker {
    type V = Seq<bool>;

    closed spec fn view(&self) -> Seq<bool> {
        self.bv@
    }
}

impl DensityTracker {
    /// The running total agrees with the slots.
    pub closed spec fn wf(&self) -> bool {
        self.total_density as nat == count_true(self@)
    }

    pub fn new() -> (r: DensityTracker)
        ensures
            r.wf(),
            r@ == Seq::<bool>::empty(),
    {
        DensityTracker { bv: Vec::new(), total_density: 0 }
    }

    /// Registers one more variable, not yet touched.
    pub fn add_element(&mut self)
        requires
            old(self).wf(),
            old(self)@.len() < usize::MAX,
        ensures
            final(self).wf(),
            final(self)@ == old(self)@.push(false),
    {
        proof {
            lemma_count_true_push(self@, false);
        }
        self.bv.push(false);
    }

    /// Records that variable `idx` was touched.
    pub fn inc(&mut self, idx: usize)
        requires
            old(self).wf(),
            idx < old(self)@.len(),
        ensures
            final(self).wf(),
            final(self)@ == old(self)@.update(idx as int, true),
    {
        if !self.bv[idx] {
            proof {
                lemma_count_true_set(self@, idx as int);
                lemma_count_true_bounded(self@.update(idx as int, true));
                assert(self@.update(idx as int, true).len() == self.bv.len());
            }
            self.bv.set(idx, true);
            self.total_density = self.total_density + 1;
        } else {
            assert(self@.update(idx as int, true) =~= self@);
        }
    }

    /// The number of variables touched so far.
    pub fn get_total_density(&self) -> (r: usize)
        requires
            self.wf(),
        ensures
            r as nat == count_true(self@),
            r <= self@.len(),
    {
        proof {
            lemma_count_true_bounded(self@);
        }
        self.total_density
    }

    /// The number of variables registered.
    pub fn len(&self) -> (r: usize)
        ensures
            r == self@.len(),
    {
        self.bv.len()
    }

    /// Whether variable `idx` was touched.
    pub fn is_set(&self, idx: usize) -> (r: bool)
        requires
            idx < self@.len(),
        ensures
            r == self@[idx as int],
    {
        self.bv[idx]
    }
}

} // verus!
