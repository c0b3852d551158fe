//! A per-cycle index: for each cycle, the smallest and the largest position of
//! an instruction whose observation window covers that cycle.

use vstd::prelude::*;
use std::ops::Range;

verus! {

/// The widest instruction range that one cycle has been claimed for, or
/// nothing while no instruction has claimed the cycle.
pub type Slot = Option<(usize, usize)>;

/// For each cycle, the range of instruction positions that may own a stage at
/// that cycle.
pub struct CycleInstrBounds {
    // position in the vector = cycle; (usize::MAX, 0) marks an unclaimed cycle
    vec: Vec<(usize, usize)>,
}

/// The slot that a stored pair stands for.
pub open spec fn slot_of(pair: (usize, usize)) -> Slot {
    if pair.0 > pair.1 {
        None
    } else {
        Some(pair)
    }
}

/// The slot after position `idx` has claimed it.
pub open spec fn widen(slot: Slot, idx: usize) -> Slot {
    match slot {
        None => Some((idx, idx)),
        Some((lo, hi)) => Some((if idx < lo { idx } else { lo }, if idx > hi { idx } else { hi })),
    }
}

/// The half-open range that a slot answers a query with.
pub open spec fn slot_range(slot: Slot) -> (int, int) {
    match slot {
        None => (0, 0),
        Some((lo, hi)) => (lo as int, hi as int + 1),
    }
}

/// The slot of `cycle` in `slots`; a cycle that was never reached has none.
pub open spec fn slot_in(slots: Seq<Slot>, cycle: int) -> Slot {
    if 0 <= cycle < slots.len() {
        slots[cycle]
    } else {
        None
    }
}

/// The slots after every cycle of `[min_cycle, max_cycle]` has been claimed
/// for position `idx`.
pub open spec fn claimed(slots: Seq<Slot>, min_cycle: int, max_cycle: int, idx: usize) -> Seq<Slot> {
    Seq::new(
        if slots.len() > max_cycle {
            slots.len()
        } else {
            (max_cycle + 1) as nat
        },
        |c: int|
            if min_cycle <= c <= max_cycle {
                widen(slot_in(slots, c), idx)
            } else {
                slot_in(slots, c)
            },
    )
}

impl CycleInstrBounds {
    /// One slot per cycle that has been reached so far.
    pub closed spec fn view(&self) -> Seq<Slot> {
        Seq::new(self.vec@.len(), |c: int| slot_of(self.vec@[c]))
    }

    /// Every stored pair is the unclaimed marker or a range of positions below
    /// `usize::MAX`.
    pub closed spec fn wf(&self) -> bool {
        forall|c: int|
            0 <= c < self.vec@.len() ==> {
                let p = #[trigger] self.vec@[c];
                (p.0 == usize::MAX && p.1 == 0) || (p.0 <= p.1 && p.1 < usize::MAX)
            }
    }

    /// Every claimed slot lies below `n`.
    pub open spec fn within(&self, n: int) -> bool {
        forall|c: int|
            0 <= c < self@.len() ==> match #[trigger] self@[c] {
                None => true,
                Some((lo, hi)) => lo <= hi && hi < n,
            }
    }

    /// The slot of `cycle`; a cycle that was never reached has none.
    pub open spec fn slot_at(&self, cycle: int) -> Slot {
        slot_in(self@, cycle)
    }

    /// The half-open range of positions that a query for `cycle` yields.
    pub open spec fn query(&self, cycle: int) -> (int, int) {
        slot_range(self.slot_at(cycle))
    }

    /// An index that no cycle has been reached in.
    pub fn new() -> (r: Self)
        ensures
            r.wf(),
            r@ == Seq::<Slot>::empty(),
    {
        let r = Self { vec: Vec::new() };
        assert(r@ =~= Seq::<Slot>::empty());
        r
    }

    /// Claims every cycle of `[min_cycle, max_cycle]` for position `seq_num`,
    /// after growing the index to reach `max_cycle`.
    pub fn add(&mut self, min_cycle: usize, max_cycle: usize, seq_num: usize)
        requires
            old(self).wf(),
            max_cycle < usize::MAX,
            seq_num < usize::MAX,
        ensures
            final(self).wf(),
            final(self)@ == claimed(old(self)@, min_cycle as int, max_cycle as int, seq_num),
            final(self)@.len() == if old(self)@.len() > max_cycle {
                old(self)@.len()
            } else {
                (max_cycle + 1) as nat
            },
            forall|c: int|
                0 <= c < final(self)@.len() ==> #[trigger] final(self)@[c] == if min_cycle <= c
                    <= max_cycle {
                    widen(old(self).slot_at(c), seq_num)
                } else {
                    old(self).slot_at(c)
                },
    {
        let ghost before = self.vec@;
        while self.vec.len() <= max_cycle
            invariant
                max_cycle < usize::MAX,
                self.wf(),
                self.vec@.len() >= before.len(),
                self.vec@.len() <= if before.len() > max_cycle {
                    before.len()
                } else {
                    (max_cycle + 1) as nat
                },
                forall|c: int| 0 <= c < before.len() ==> self.vec@[c] == before[c],
                forall|c: int|
                    before.len() <= c < self.vec@.len() ==> self.vec@[c] == (usize::MAX, 0usize),
            decreases max_cycle + 1 - self.vec.len(),
        {
            self.vec.push((usize::MAX, 0usize));
        }
        let ghost grown = self.vec@;
        if min_cycle <= max_cycle {
            let mut i: usize = min_cycle;
            while i <= max_cycle
                invariant
                    min_cycle <= i <= max_cycle + 1,
                    max_cycle < usize::MAX,
                    seq_num < usize::MAX,
                    max_cycle < self.vec@.len(),
                    self.vec@.len() == grown.len(),
                    self.wf(),
                    forall|c: int|
                        0 <= c < grown.len() ==> #[trigger] self.vec@[c] == if min_cycle <= c < i {
                            let p = grown[c];
                            (
                                if seq_num < p.0 { seq_num } else { p.0 },
                                if seq_num > p.1 { seq_num } else { p.1 },
                            )
                        } else {
                            grown[c]
                        },
                decreases max_cycle + 1 - i,
            {
                let entry = self.vec[i];
                let lo: usize = if seq_num < entry.0 { seq_num } else { entry.0 };
                let hi: usize = if seq_num > entry.1 { seq_num } else { entry.1 };
                self.vec.set(i, (lo, hi));
                i = i + 1;
            }
        }
        proof {
            assert forall|c: int| 0 <= c < self@.len() implies #[trigger] self@[c] == if min_cycle
                <= c <= max_cycle {
                widen(old(self).slot_at(c), seq_num)
            } else {
                old(self).slot_at(c)
            } by {
                assert(self@[c] == slot_of(self.vec@[c]));
                if c < before.len() {
                    assert(old(self)@[c] == slot_of(before[c]));
                    assert(old(self).vec@[c] == before[c]);
                }
            }
            assert(self@ =~= claimed(old(self)@, min_cycle as int, max_cycle as int, seq_num));
        }
    }

    /// The half-open range of positions that may own a stage at `cycle`; empty
    /// for a cycle that was never reached or never claimed.
    pub fn inst_range(&self, cycle: usize) -> (r: Range<usize>)
        requires
            self.wf(),
        ensures
            r.start == self.query(cycle as int).0,
            r.end == self.query(cycle as int).1,
            r.start <= r.end,
    {
        if cycle >= self.vec.len() {
            0..0
        } else {
            let p = self.vec[cycle];
            if p.0 > p.1 {
                0..0
            } else {
                p.0..(p.1 + 1)
            }
        }
    }

    /// A query yields a range whose ends are in order; where every claim was
    /// made for a position below `n`, the range lies within `0..n`; and a cycle
    /// beyond the last one reached yields the empty range.
    pub proof fn lemma_query_valid(&self, n: int, cycle: int)
        requires
            self.wf(),
            self.within(n),
            0 <= n,
        ensures
            0 <= self.query(cycle).0 <= self.query(cycle).1 <= n,
            cycle >= self@.len() ==> self.query(cycle).0 == self.query(cycle).1,
    {
        if 0 <= cycle < self@.len() {
            assert(self@[cycle] == slot_of(self.vec@[cycle]));
        }
    }

    /// Claiming cycles for a position below `n` keeps every claim below `n`.
    pub proof fn lemma_add_within(
        before: Self,
        after: Self,
        min_cycle: int,
        max_cycle: int,
        idx: usize,
        n: int,
    )
        requires
            before.within(n),
            idx < n,
            after@ == claimed(before@, min_cycle, max_cycle, idx),
        ensures
            after.within(n),
    {
        assert forall|c: int| 0 <= c < after@.len() implies match #[trigger] after@[c] {
            None => true,
            Some((lo, hi)) => lo <= hi && hi < n,
        } by {
            if 0 <= c < before@.len() {
                assert(match before@[c] {
                    None => true,
                    Some((lo, hi)) => lo <= hi && hi < n,
                });
            }
        }
    }
}

} // verus!
