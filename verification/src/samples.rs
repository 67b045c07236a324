//! A bounded window of recent millisecond samples and its percentiles.

use vstd::prelude::*;

verus! {

/// How many recent samples a window keeps.
pub const LATENCY_SAMPLE_CAPACITY: usize = 64;

/// Values never decrease along `s`.
pub open spec fn sorted_u16(s: Seq<u16>) -> bool {
    forall|a: int, b: int| 0 <= a < b < s.len() ==> s[a] <= s[b]
}

/// Inserts `x` after every element not larger than it.
pub open spec fn insert_u16(sorted: Seq<u16>, x: u16) -> Seq<u16>
    decreases sorted.len(),
{
    if sorted.len() == 0 {
        seq![x]
    } else if sorted.last() <= x {
        sorted.push(x)
    } else {
        insert_u16(sorted.drop_last(), x).push(sorted.last())
    }
}

/// `s` in non-decreasing order.
pub open spec fn sort_u16(s: Seq<u16>) -> Seq<u16>
    decreases s.len(),
{
    if s.len() == 0 {
        s
    } else {
        insert_u16(sort_u16(s.drop_last()), s.last())
    }
}

proof fn lemma_insert_u16_at(t: Seq<u16>, x: u16, j: int)
    requires
        0 <= j <= t.len(),
        forall|m: int| 0 <= m < j ==> t[m] <= x,
        forall|m: int| j <= m < t.len() ==> t[m] > x,
    ensures
        insert_u16(t, x) == t.take(j).push(x) + t.skip(j),
    decreases t.len(),
{
    if t.len() == 0 {
        assert(t.take(j).push(x) + t.skip(j) =~= seq![x]);
    } else if t.last() <= x {
        assert(j == t.len());
        assert(t.take(j).push(x) + t.skip(j) =~= t.push(x));
    } else {
        let d = t.drop_last();
        lemma_insert_u16_at(d, x, j);
        assert(d.take(j).push(x) + d.skip(j) + seq![t.last()] =~= t.take(j).push(x) + t.skip(j));
    }
}

/// Sorts the values in non-decreasing order.
pub fn sort_values(values: &mut Vec<u16>)
    ensures
        final(values)@ == sort_u16(old(values)@),
        sorted_u16(final(values)@),
        final(values)@.len() == old(values)@.len(),
{
    let ghost orig = values@;
    let n = values.len();
    if n == 0 {
        return;
    }
    proof {
        let t1 = orig.take(1);
        assert(t1.drop_last() =~= Seq::<u16>::empty());
        assert(sort_u16(t1.drop_last()) =~= Seq::<u16>::empty());
        assert(insert_u16(Seq::<u16>::empty(), t1.last()) =~= seq![t1.last()]);
        assert(sort_u16(t1) =~= t1);
    }
    let mut i: usize = 1;
    while i < n
        invariant
            1 <= i <= n,
            n == values@.len(),
            orig.len() == n,
            values@.take(i as int) == sort_u16(orig.take(i as int)),
            values@.skip(i as int) == orig.skip(i as int),
            sorted_u16(values@.take(i as int)),
        decreases n - i,
    {
        let ghost before = values@;
        let ghost t = before.take(i as int);
        let x = values.remove(i);
        proof {
            assert(before.skip(i as int)[0] == before[i as int]);
        }
        let mut j: usize = 0;
        while j < i && values[j] <= x
            invariant
                0 <= j <= i,
                i < n,
                values@.len() == n - 1,
                values@.take(i as int) == t,
                forall|m: int| 0 <= m < j ==> t[m] <= x,
            decreases i - j,
        {
            proof {
                assert(t[j as int] == values@[j as int]);
            }
            j += 1;
        }
        proof {
            if j < i {
                assert(t[j as int] == values@[j as int]);
                assert forall|m: int| j <= m < t.len() implies t[m] > x by {
                    assert(t[j as int] <= t[m]);
                }
            }
            lemma_insert_u16_at(t, x, j as int);
        }
        values.insert(j, x);
        proof {
            let after = values@;
            assert(orig.take(i + 1).drop_last() =~= orig.take(i as int));
            assert(orig.take(i + 1).last() == orig[i as int]);
            assert(x == orig[i as int]) by {
                assert(before.skip(i as int)[0] == orig.skip(i as int)[0]);
            }
            assert(after.take(i + 1) =~= t.take(j as int).push(x) + t.skip(j as int));
            assert forall|m: int| 0 <= m < after.skip(i + 1).len() implies #[trigger] after.skip(
                i + 1,
            )[m] == orig.skip(i + 1)[m] by {
                assert(after[i + 1 + m] == before[i + 1 + m]);
                assert(before.skip(i as int)[m + 1] == orig.skip(i as int)[m + 1]);
            }
            assert(after.skip(i + 1) =~= orig.skip(i + 1));
            let nt = after.take(i + 1);
            assert forall|a: int, b: int| 0 <= a < b < nt.len() implies nt[a] <= nt[b] by {
                if a < j && b < j {
                } else if a < j && b == j {
                } else if a < j {
                    assert(nt[b] == t[b - 1]);
                } else if a == j {
                    assert(nt[b] == t[b - 1]);
                } else {
                    assert(nt[a] == t[a - 1] && nt[b] == t[b - 1]);
                }
            }
        }
        i += 1;
    }
    proof {
        assert(values@.take(n as int) =~= values@);
        assert(orig.take(n as int) =~= orig);
    }
}

/// The rank of the `percentile`-th sample among `len` sorted samples.
pub open spec fn percentile_rank(len: nat, percentile: u8) -> int {
    let p = if percentile > 100 {
        100int
    } else {
        percentile as int
    };
    let idx = ((len - 1) * p + 99) / 100;
    if idx < len - 1 {
        idx
    } else {
        len - 1
    }
}

/// The `percentile`-th of the samples: nearest rank, rounding up; zero when
/// there is none.
pub open spec fn spec_percentile(samples: Seq<u16>, percentile: u8) -> u16 {
    if samples.len() == 0 {
        0
    } else {
        sort_u16(samples)[percentile_rank(samples.len(), percentile)]
    }
}

/// The most recent samples, up to `LATENCY_SAMPLE_CAPACITY` of them, kept
/// in a ring.
#[derive(Debug, Clone, Copy, PartialEq, Eq)]
pub struct LatencySamples {
    values: [u16; 64],
    len: usize,
    next: usize,
}

impl LatencySamples {
    /// The ring is filled from slot 0 until full, then overwritten in turn.
    pub closed spec fn wf(self) -> bool {
        &&& self.len <= 64
        &&& self.next < 64
        &&& self.len < 64 ==> self.next == self.len
    }

    /// The samples held, in slot order.
    pub closed spec fn samples(self) -> Seq<u16> {
        self.values@.take(self.len as int)
    }

    /// The slot the next sample goes to.
    pub closed spec fn next_slot(self) -> int {
        self.next as int
    }

    pub fn new() -> (samples: LatencySamples)
        ensures
            samples.wf(),
            samples.samples() == Seq::<u16>::empty(),
            samples.next_slot() == 0,
    {
        LatencySamples { values: [0u16; 64], len: 0, next: 0 }
    }

    /// Records a sample: it is appended while there is room, and otherwise
    /// replaces the oldest one.
    pub fn push(&mut self, value: u16)
        requires
            old(self).wf(),
        ensures
            final(self).wf(),
            old(self).samples().len() < 64 ==> final(self).samples() == old(self).samples().push(
                value,
            ),
            old(self).samples().len() == 64 ==> final(self).samples() == old(self).samples().update(
                old(self).next_slot(),
                value,
            ),
            final(self).next_slot() == (old(self).next_slot() + 1) % 64,
    {
        let ghost before = self.values@;
        self.values[self.next] = value;
        self.next = (self.next + 1) % 64;
        if self.len < 64 {
            self.len = self.len + 1;
        }
        proof {
            assert(self.values@ == before.update(old(self).next as int, value));
            if old(self).len < 64 {
                assert(self.values@.take(self.len as int) =~= before.take(old(self).len as int).push(
                    value,
                ));
            } else {
                assert(self.values@.take(self.len as int) =~= before.take(64).update(
                    old(self).next as int,
                    value,
                ));
            }
        }
    }

    pub fn len(&self) -> (len: usize)
        requires
            self.wf(),
        ensures
            len == self.samples().len(),
    {
        self.len
    }

    /// The nearest-rank percentile of the held samples, zero when empty.
    pub fn percentile(self, percentile: u8) -> (value: u16)
        requires
            self.wf(),
        ensures
            value == spec_percentile(self.samples(), percentile),
    {
        if self.len == 0 {
            return 0;
        }
        let mut sorted: Vec<u16> = Vec::new();
        let mut i: usize = 0;
        while i < self.len
            invariant
                0 <= i <= self.len,
                self.len <= 64,
                sorted@ == self.values@.take(i as int),
            decreases self.len - i,
        {
            sorted.push(self.values[i]);
            i += 1;
            assert(sorted@ =~= self.values@.take(i as int));
        }
        sort_values(&mut sorted);
        let p: u32 = if percentile > 100 {
            100
        } else {
            percentile as u32
        };
        let lm1: u32 = (self.len - 1) as u32;
        assert(lm1 * p <= 6300) by (nonlinear_arith)
            requires
                lm1 <= 63,
                p <= 100,
        ;
        let idx = (lm1 * p + 99) / 100;
        let index: usize = if (idx as usize) < self.len - 1 {
            idx as usize
        } else {
            self.len - 1
        };
        sorted[index]
    }
}

/// `after` is `before` with `value` recorded: appended while there is room,
/// otherwise in place of the oldest sample.
pub open spec fn sample_recorded(before: LatencySamples, after: LatencySamples, value: u16) -> bool {
    &&& after.wf()
    &&& before.samples().len() < 64 ==> after.samples() == before.samples().push(value)
    &&& before.samples().len() == 64 ==> after.samples() == before.samples().update(
        before.next_slot(),
        value,
    )
}

impl Default for LatencySamples {
    fn default() -> (samples: LatencySamples)
        ensures
            samples.wf(),
            samples.samples() == Seq::<u16>::empty(),
            samples.next_slot() == 0,
    {
        LatencySamples::new()
    }
}

} // verus!
