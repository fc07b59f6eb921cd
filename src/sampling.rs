//! Per-call-site counters and the two sampling policies built on them.
use vstd::prelude::*;

verus! {

/// A counter for every call site (tag) that has been checked at least once.
///
/// Entries are never removed: the table grows with the number of distinct
/// call sites, not with the amount of data.
pub struct CounterTable {
    entries: Vec<(String, u64)>,
    model: Ghost<Map<Seq<char>, u64>>,
}

/// Why a sampling request could not be served.
#[derive(Debug, PartialEq, Eq, Structural)]
pub enum SamplingError {
    /// `every` was asked for a period of zero.
    ZeroPeriod,
}

/// Whether `every(tag, n)` fires when the counter of `tag` stood at `value`.
pub open spec fn every_fires(value: nat, n: nat) -> bool {
    value % n == 0
}

/// Whether `oneshot(tag, n)` fires when the counter of `tag` stood at `value`.
pub open spec fn oneshot_fires(value: nat, n: nat) -> bool {
    value == n
}

impl View for CounterTable {
    type V = Map<Seq<char>, u64>;

    closed spec fn view(&self) -> Map<Seq<char>, u64> {
        self.model@
    }
}

impl CounterTable {
    /// The value of the counter of `tag`: zero for a tag never seen.
    pub open spec fn count(&self, tag: Seq<char>) -> u64 {
        if self@.contains_key(tag) {
            self@[tag]
        } else {
            0
        }
    }

    pub closed spec fn wf(&self) -> bool {
        &&& forall|i: int, j: int|
            0 <= i < j < self.entries@.len() ==> self.entries@[i].0@ != self.entries@[j].0@
        &&& forall|i: int|
            0 <= i < self.entries@.len() ==> {
                &&& self.model@.contains_key(#[trigger] self.entries@[i].0@)
                &&& self.model@[self.entries@[i].0@] == self.entries@[i].1
            }
        &&& forall|k: Seq<char>|
            #[trigger] self.model@.contains_key(k) ==> exists|i: int|
                0 <= i < self.entries@.len() && #[trigger] self.entries@[i].0@ == k
    }

    /// An empty table: every counter stands at zero.
    pub fn new() -> (r: CounterTable)
        ensures
            r.wf(),
            r@ == Map::<Seq<char>, u64>::empty(),
    {
        CounterTable { entries: Vec::new(), model: Ghost(Map::empty()) }
    }

    /// The position of `tag` among the entries, if it has one.
    fn find(&self, tag: &String) -> (r: Option<usize>)
        requires
            self.wf(),
        ensures
            r is None ==> !self@.contains_key(tag@),
            r matches Some(i) ==> i < self.entries@.len() && self.entries@[i as int].0@ == tag@,
    {
        let mut i: usize = 0;
        while i < self.entries.len()
            invariant
                self.wf(),
                i <= self.entries@.len(),
                forall|j: int| 0 <= j < i ==> self.entries@[j].0@ != tag@,
            decreases self.entries@.len() - i,
        {
            if self.entries[i].0 == *tag {
                return Some(i);
            }
            i = i + 1;
        }
        None
    }

    /// The current value of the counter of `tag`, without changing it.
    pub fn get(&self, tag: &String) -> (r: u64)
        requires
            self.wf(),
        ensures
            r == self.count(tag@),
    {
        match self.find(tag) {
            Some(i) => self.entries[i].1,
            None => 0,
        }
    }

    /// Returns the counter of `tag` as it stood before the call, then adds one
    /// to it. A tag seen for the first time starts at zero.
    pub fn check_and_increment(&mut self, tag: &String) -> (r: u64)
        requires
            old(self).wf(),
            old(self).count(tag@) < u64::MAX,
        ensures
            final(self).wf(),
            r == old(self).count(tag@),
            final(self)@ == old(self)@.insert(tag@, (r + 1) as u64),
    {
        match self.find(tag) {
            Some(i) => {
                let v = self.entries[i].1;
                let name = self.entries[i].0.clone();
                self.entries.set(i, (name, v + 1));
                self.model = Ghost(self.model@.insert(tag@, (v + 1) as u64));
                assert forall|k: Seq<char>| #[trigger] self.model@.contains_key(k) implies exists|
                    j: int,
                | 0 <= j < self.entries@.len() && #[trigger] self.entries@[j].0@ == k by {
                    if k != tag@ {
                        let j = choose|j: int|
                            0 <= j < old(self).entries@.len() && #[trigger] old(
                                self,
                            ).entries@[j].0@ == k;
                        assert(self.entries@[j].0@ == k);
                    } else {
                        assert(self.entries@[i as int].0@ == k);
                    }
                }
                v
            },
            None => {
                self.entries.push((tag.clone(), 1));
                self.model = Ghost(self.model@.insert(tag@, 1));
                let ghost n = self.entries@.len() - 1;
                assert forall|k: Seq<char>| #[trigger] self.model@.contains_key(k) implies exists|
                    j: int,
                | 0 <= j < self.entries@.len() && #[trigger] self.entries@[j].0@ == k by {
                    if k != tag@ {
                        let j = choose|j: int|
                            0 <= j < old(self).entries@.len() && #[trigger] old(
                                self,
                            ).entries@[j].0@ == k;
                        assert(self.entries@[j].0@ == k);
                    } else {
                        assert(self.entries@[n].0@ == k);
                    }
                }
                0
            },
        }
    }

    /// Counts a call at `tag` and says whether it is one of every `n`-th
    /// calls there, the first call included.
    pub fn every(&mut self, tag: &String, n: u64) -> (r: Result<bool, SamplingError>)
        requires
            old(self).wf(),
            old(self).count(tag@) < u64::MAX,
        ensures
            final(self).wf(),
            n == 0 ==> r == Err::<bool, SamplingError>(SamplingError::ZeroPeriod) && final(self)@
                == old(self)@,
            n > 0 ==> r == Ok::<bool, SamplingError>(
                every_fires(old(self).count(tag@) as nat, n as nat),
            ) && final(self)@ == old(self)@.insert(tag@, (old(self).count(tag@) + 1) as u64),
    {
        if n == 0 {
            return Err(SamplingError::ZeroPeriod);
        }
        let v = self.check_and_increment(tag);
        Ok(v % n == 0)
    }

    /// Counts a call at `tag` and says whether it is the `n`-th call there,
    /// counting from zero.
    pub fn oneshot(&mut self, tag: &String, n: u64) -> (r: bool)
        requires
            old(self).wf(),
            old(self).count(tag@) < u64::MAX,
        ensures
            final(self).wf(),
            r == oneshot_fires(old(self).count(tag@) as nat, n as nat),
            final(self)@ == old(self)@.insert(tag@, (old(self).count(tag@) + 1) as u64),
    {
        let v = self.check_and_increment(tag);
        v == n
    }
}

/// How many of the first `k` calls of `every(tag, n)` at a fresh tag fire:
/// the calls see the counter values `0, 1, ..., k - 1` in turn.
pub open spec fn every_fire_count(k: nat, n: nat) -> nat
    decreases k,
{
    if k == 0 {
        0
    } else {
        every_fire_count((k - 1) as nat, n) + if every_fires((k - 1) as nat, n) {
            1nat
        } else {
            0nat
        }
    }
}

/// How many of the first `k` calls of `oneshot(tag, n)` at a fresh tag fire.
pub open spec fn oneshot_fire_count(k: nat, n: nat) -> nat
    decreases k,
{
    if k == 0 {
        0
    } else {
        oneshot_fire_count((k - 1) as nat, n) + if oneshot_fires((k - 1) as nat, n) {
            1nat
        } else {
            0nat
        }
    }
}

/// For every period `n >= 1`, `k` calls of `every(tag, n)` at a fresh tag fire
/// exactly `ceil(k / n)` times, and the first call always fires.
pub proof fn lemma_every_fires_ceil(k: nat, n: nat)
    requires
        n >= 1,
    ensures
        every_fire_count(k, n) == (k + n - 1) / (n as int),
        every_fires(0, n),
    decreases k,
{
    if k == 0 {
        vstd::arithmetic::div_mod::lemma_basic_div(n as int - 1, n as int);
    } else {
        lemma_every_fires_ceil((k - 1) as nat, n);
        let m = (k - 1) as int;
        let q = m / n as int;
        let r = m % n as int;
        assert(m == q * n + r && 0 <= r < n) by (nonlinear_arith)
            requires
                n >= 1,
                q == m / n as int,
                r == m % n as int,
        ;
        assert(every_fires((k - 1) as nat, n) == (r == 0));
        assert(k + n - 1 == m + n);
        if r == 0 {
            assert((m + n - 1) / (n as int) == q) by (nonlinear_arith)
                requires
                    m == q * n,
                    n >= 1,
            ;
            assert((m + n) / (n as int) == q + 1) by (nonlinear_arith)
                requires
                    m == q * n,
                    n >= 1,
            ;
        } else {
            assert((m + n - 1) / (n as int) == q + 1) by (nonlinear_arith)
                requires
                    m == q * n + r,
                    1 <= r < n,
            ;
            assert((m + n) / (n as int) == q + 1) by (nonlinear_arith)
                requires
                    m == q * n + r,
                    1 <= r < n,
            ;
        }
    }
}

/// `k` calls of `oneshot(tag, n)` at a fresh tag, with `k > n`, fire exactly
/// once, and that is the call that sees the counter at `n` (counting from zero).
pub proof fn lemma_oneshot_fires_once(k: nat, n: nat)
    requires
        k > n,
    ensures
        oneshot_fire_count(k, n) == 1,
        oneshot_fires(n, n),
        forall|v: nat| v != n ==> !oneshot_fires(v, n),
    decreases k,
{
    lemma_oneshot_none_before(n, n);
    if k > n + 1 {
        lemma_oneshot_fires_once((k - 1) as nat, n);
    }
}

proof fn lemma_oneshot_none_before(k: nat, n: nat)
    requires
        k <= n,
    ensures
        oneshot_fire_count(k, n) == 0,
    decreases k,
{
    if k > 0 {
        lemma_oneshot_none_before((k - 1) as nat, n);
    }
}

} // verus!
