//! A circular delay line: a fixed ring of slots and a write head.
//!
//! Each audio channel writes one sample per frame at the head, reads four
//! neighbouring slots for the fractional-delay interpolator, and then moves
//! the head on by one slot, wrapping at the end of the ring.

use vstd::prelude::*;

verus! {

/// Slack, in samples, past the interpolator's furthest read.
pub const INTERP_MARGIN: usize = 2;

/// The abstract state of a delay line: its slots, and the slot that the
/// write head points at.
#[verifier::ext_equal]
pub struct DelayLineView<T> {
    pub slots: Seq<T>,
    pub head: nat,
}

/// A ring of `len` copies of `x`.
pub open spec fn filled<T>(len: nat, x: T) -> Seq<T> {
    Seq::new(len, |i: int| x)
}

/// Law: a filled ring has exactly the length asked for, and every slot of it
/// holds the fill value; two filled rings of different lengths differ.
pub proof fn lemma_filled_ring<T>(len: nat, x: T)
    ensures
        filled(len, x).len() == len,
        forall|i: int| 0 <= i < len ==> #[trigger] filled(len, x)[i] == x,
        forall|other: nat| other != len ==> #[trigger] filled(other, x) != filled(len, x),
{
    assert forall|other: nat| other != len implies #[trigger] filled(other, x) != filled(len, x) by {
        assert(filled(other, x).len() != filled(len, x).len());
    }
}

/// Law: the slot counts of a fresh line and of a reset line: resetting any
/// well-formed line leaves exactly as many slots as it had, however many
/// times it is done, each holding the fill value, with the head at slot 0.
pub proof fn lemma_reset_keeps_length<T>(v: DelayLineView<T>, x: T)
    requires
        v.wf(),
    ensures
        (DelayLineView { slots: filled(v.slots.len(), x), head: 0 }).wf(),
        filled(v.slots.len(), x).len() == v.slots.len(),
        filled(filled(v.slots.len(), x).len(), x) == filled(v.slots.len(), x),
        forall|i: int| 0 <= i < v.slots.len() ==> #[trigger] filled(v.slots.len(), x)[i] == x,
{
    lemma_filled_ring(v.slots.len(), x);
}

impl<T> DelayLineView<T> {
    /// The head is a slot of the ring, or zero for an empty ring.
    pub open spec fn wf(self) -> bool {
        if self.slots.len() == 0 {
            self.head == 0
        } else {
            self.head < self.slots.len()
        }
    }

    /// The slot that holds the sample `age` frames behind the head
    /// (age 0 is the head's own slot).
    pub open spec fn slot_of_age(self, age: int) -> int {
        (self.head as int - age) % (self.slots.len() as int)
    }

    /// The sample `age` frames behind the head.
    pub open spec fn behind(self, age: int) -> T {
        self.slots[self.slot_of_age(age)]
    }

    /// The line after `x` is stored at the head.
    pub open spec fn written(self, x: T) -> DelayLineView<T> {
        DelayLineView { slots: self.slots.update(self.head as int, x), head: self.head }
    }

    /// The line after the head moves on by one slot, wrapping at the end.
    pub open spec fn advanced(self) -> DelayLineView<T> {
        DelayLineView {
            slots: self.slots,
            head: if self.head + 1 >= self.slots.len() {
                0
            } else {
                (self.head + 1) as nat
            },
        }
    }

    /// The line after one frame per sample of `samples`: the head moves on,
    /// then the sample is stored there.
    pub open spec fn pushed(self, samples: Seq<T>) -> DelayLineView<T>
        decreases samples.len(),
    {
        if samples.len() == 0 {
            self
        } else {
            self.pushed(samples.drop_last()).advanced().written(samples.last())
        }
    }
}

/// Remainder of an integer that lies within one period of `[0, m)`.
proof fn lemma_mod_within_one_period(x: int, m: int)
    requires
        m > 0,
        -m <= x < 2 * m,
    ensures
        x % m == (if x < 0 {
            x + m
        } else if x < m {
            x
        } else {
            x - m
        }),
{
    if x < 0 {
        vstd::arithmetic::div_mod::lemma_fundamental_div_mod_converse(x, m, -1, x + m);
    } else if x < m {
        vstd::arithmetic::div_mod::lemma_fundamental_div_mod_converse(x, m, 0, x);
    } else {
        vstd::arithmetic::div_mod::lemma_fundamental_div_mod_converse(x, m, 1, x - m);
    }
}

/// Law: the write head moves exactly one slot per frame, around the ring;
/// and after a run of frames, the sample `age` frames behind the head is the
/// pushed sample of that age, or, for ages past the run, the sample that was
/// `age - samples.len()` frames behind the head before the run. This holds for
/// every age below the ring's length, however long the run.
pub proof fn lemma_pushed_behind<T>(v: DelayLineView<T>, samples: Seq<T>, age: int)
    requires
        v.wf(),
        v.slots.len() > 0,
        0 <= age < v.slots.len(),
    ensures
        v.pushed(samples).wf(),
        v.pushed(samples).slots.len() == v.slots.len(),
        v.pushed(samples).head == (v.head + samples.len()) as int % (v.slots.len() as int),
        v.pushed(samples).behind(age) == (if age < samples.len() {
            samples[samples.len() - 1 - age]
        } else {
            v.behind(age - samples.len())
        }),
    decreases samples.len(),
{
    let m = v.slots.len() as int;
    let n = samples.len() as int;
    if n == 0 {
        vstd::arithmetic::div_mod::lemma_fundamental_div_mod_converse(v.head as int, m, 0, v.head as int);
    } else {
        let rest = samples.drop_last();
        let p = v.pushed(rest);
        let a = p.advanced();
        let w = a.written(samples.last());
        assert(v.pushed(samples) == w);
        if age >= 1 {
            lemma_pushed_behind(v, rest, age - 1);
        } else {
            lemma_pushed_behind(v, rest, 0);
        }
        // head after the frame
        lemma_mod_within_one_period(p.head as int + 1, m);
        if m == 1 {
            vstd::arithmetic::div_mod::lemma_fundamental_div_mod_converse(v.head + n, m, v.head + n, 0);
        } else {
            vstd::arithmetic::div_mod::lemma_add_mod_noop(v.head + n - 1, 1, m);
            vstd::arithmetic::div_mod::lemma_fundamental_div_mod_converse(1, m, 0, 1);
        }
        assert(w.head == (v.head + n) % m);
        // the slots of the ages involved
        lemma_mod_within_one_period(w.head - age, m);
        lemma_mod_within_one_period(p.head - (age - 1), m);
        if age == 0 {
            assert(w.slot_of_age(0) == w.head);
            assert(w.behind(0) == samples.last());
        } else {
            assert(w.slot_of_age(age) != w.head);
            assert(w.slot_of_age(age) == p.slot_of_age(age - 1));
            assert(w.behind(age) == p.behind(age - 1));
            if age < n {
                assert(rest[rest.len() - 1 - (age - 1)] == samples[n - 1 - age]);
            }
        }
    }
}

/// Law: a sample written at the head is read back unchanged `later.len()`
/// frames later, that many frames behind the head, whatever was pushed in
/// between, as long as the delay is shorter than the ring.
pub proof fn lemma_written_sample_read_back<T>(v: DelayLineView<T>, x: T, later: Seq<T>)
    requires
        v.wf(),
        v.slots.len() > 0,
        later.len() < v.slots.len(),
    ensures
        v.written(x).pushed(later).behind(later.len() as int) == x,
{
    let w = v.written(x);
    lemma_pushed_behind(w, later, later.len() as int);
    vstd::arithmetic::div_mod::lemma_fundamental_div_mod_converse(v.head as int, v.slots.len() as int, 0, v.head as int);
    assert(w.slot_of_age(0) == v.head);
}

/// Law: when the interpolator's base slot lies `age` frames behind the head,
/// with the newest tap at least at the head (`age >= 2`) and the oldest tap
/// inside the ring (`age + INTERP_MARGIN <= len`), the four taps read the
/// samples `age + 1`, `age`, `age - 1` and `age - 2` frames old. So no tap
/// reads across the write head into the other end of the history.
pub proof fn lemma_taps_read_consecutive_ages<T>(v: DelayLineView<T>, index_a: int, age: int)
    requires
        v.wf(),
        0 <= index_a < v.slots.len(),
        2 <= age,
        age + INTERP_MARGIN <= v.slots.len(),
        index_a == v.slot_of_age(age),
    ensures
        0 <= age - 2,
        age + 1 < v.slots.len(),
        v.slots[(index_a + v.slots.len() - 1) % (v.slots.len() as int)] == v.behind(age + 1),
        v.slots[index_a] == v.behind(age),
        v.slots[(index_a + 1) % (v.slots.len() as int)] == v.behind(age - 1),
        v.slots[(index_a + 2) % (v.slots.len() as int)] == v.behind(age - 2),
{
    let m = v.slots.len() as int;
    let h = v.head as int;
    lemma_mod_within_one_period(h - age, m);
    lemma_mod_within_one_period(h - age - 1, m);
    lemma_mod_within_one_period(h - age + 1, m);
    lemma_mod_within_one_period(h - age + 2, m);
    lemma_mod_within_one_period(index_a + m - 1, m);
    lemma_mod_within_one_period(index_a + 1, m);
    lemma_mod_within_one_period(index_a + 2, m);
    assert(v.slot_of_age(age + 1) == (index_a + m - 1) % m);
    assert(v.slot_of_age(age - 1) == (index_a + 1) % m);
    assert(v.slot_of_age(age - 2) == (index_a + 2) % m);
}

/// A circular buffer of samples with a write head.
#[derive(Clone)]
pub struct DelayLine<T> {
    buffer: Vec<T>,
    write_pos: usize,
}

impl<T> View for DelayLine<T> {
    type V = DelayLineView<T>;

    closed spec fn view(&self) -> DelayLineView<T> {
        DelayLineView { slots: self.buffer@, head: self.write_pos as nat }
    }
}

impl<T: Copy> DelayLine<T> {
    /// A line of `len` slots, all holding `fill`, with the head at slot 0.
    pub fn new(len: usize, fill: T) -> (line: Self)
        ensures
            line@.slots == filled(len as nat, fill),
            line@.slots.len() == len,
            forall|i: int| 0 <= i < len ==> #[trigger] line@.slots[i] == fill,
            line@.head == 0,
            line@.wf(),
    {
        let mut buffer: Vec<T> = Vec::with_capacity(len);
        let mut i: usize = 0;
        while i < len
            invariant
                i <= len,
                buffer@ == filled(i as nat, fill),
            decreases len - i,
        {
            buffer.push(fill);
            i = i + 1;
            assert(buffer@ =~= filled(i as nat, fill));
        }
        DelayLine { buffer, write_pos: 0 }
    }

    /// The number of slots.
    pub fn len(&self) -> (n: usize)
        ensures
            n == self@.slots.len(),
    {
        self.buffer.len()
    }

    /// The slot that the write head points at.
    pub fn write_pos(&self) -> (p: usize)
        ensures
            p == self@.head,
    {
        self.write_pos
    }

    /// Store `x` at the head; the head stays where it is.
    pub fn write(&mut self, x: T)
        requires
            old(self)@.wf(),
            old(self)@.slots.len() > 0,
        ensures
            final(self)@ == old(self)@.written(x),
            final(self)@.wf(),
            final(self)@.head == old(self)@.head,
            final(self)@.slots.len() == old(self)@.slots.len(),
            final(self)@.slots[old(self)@.head as int] == x,
            forall|i: int|
                0 <= i < old(self)@.slots.len() && i != old(self)@.head ==> #[trigger] final(self)@.slots[i]
                    == old(self)@.slots[i],
    {
        let p = self.write_pos;
        self.buffer[p] = x;
    }

    /// Move the head on by one slot, back to slot 0 after the last one.
    pub fn advance(&mut self)
        requires
            old(self)@.wf(),
        ensures
            final(self)@ == old(self)@.advanced(),
            final(self)@.wf(),
            final(self)@.slots == old(self)@.slots,
            old(self)@.slots.len() > 0 ==> final(self)@.head == (old(self)@.head + 1) as int % (old(
                self,
            )@.slots.len() as int),
            old(self)@.slots.len() == 0 ==> final(self)@.head == 0,
    {
        let len = self.buffer.len();
        self.write_pos = if self.write_pos + 1 >= len {
            0
        } else {
            self.write_pos + 1
        };
        proof {
            if len > 0 {
                lemma_mod_within_one_period(old(self)@.head as int + 1, len as int);
            }
        }
    }

    /// Bring a whole-sample read position into the ring.
    pub fn wrap_index(&self, pos: usize) -> (i: usize)
        requires
            self@.slots.len() > 0,
        ensures
            i == (pos as int) % (self@.slots.len() as int),
            i < self@.slots.len(),
    {
        pos % self.buffer.len()
    }

    /// The four interpolation taps around slot `index_a`: the slot before
    /// it, the slot itself, and the two after it, each taken around the ring.
    pub fn taps(&self, index_a: usize) -> (t: (T, T, T, T))
        requires
            index_a < self@.slots.len(),
        ensures
            t.0 == self@.slots[(index_a + self@.slots.len() - 1) % (self@.slots.len() as int)],
            t.1 == self@.slots[index_a as int],
            t.2 == self@.slots[(index_a + 1) % (self@.slots.len() as int)],
            t.3 == self@.slots[(index_a + 2) % (self@.slots.len() as int)],
    {
        let len = self.buffer.len();
        let prev = if index_a == 0 {
            len - 1
        } else {
            index_a - 1
        };
        let next = if index_a + 1 >= len {
            0
        } else {
            index_a + 1
        };
        let next2 = if next + 1 >= len {
            0
        } else {
            next + 1
        };
        proof {
            let m = len as int;
            lemma_mod_within_one_period(index_a + m - 1, m);
            lemma_mod_within_one_period(index_a + 1, m);
            if len == 1 {
                vstd::arithmetic::div_mod::lemma_fundamental_div_mod_converse(index_a + 2, m, index_a + 2, 0);
            } else {
                lemma_mod_within_one_period(index_a + 2, m);
            }
        }
        (self.buffer[prev], self.buffer[index_a], self.buffer[next], self.buffer[next2])
    }

    /// Clear every slot to `fill` and put the head back at slot 0.
    pub fn reset(&mut self, fill: T)
        requires
            old(self)@.wf(),
        ensures
            final(self)@.slots == filled(old(self)@.slots.len(), fill),
            final(self)@.slots.len() == old(self)@.slots.len(),
            forall|i: int| 0 <= i < old(self)@.slots.len() ==> #[trigger] final(self)@.slots[i] == fill,
            final(self)@.head == 0,
            final(self)@.wf(),
    {
        self.write_pos = 0;
        let len = self.buffer.len();
        let mut i: usize = 0;
        while i < len
            invariant
                i <= len,
                len == self.buffer@.len(),
                self.write_pos == 0,
                forall|j: int| 0 <= j < i ==> self.buffer@[j] == fill,
            decreases len - i,
        {
            self.buffer[i] = fill;
            i = i + 1;
        }
        assert(self.buffer@ =~= filled(len as nat, fill));
    }
}

} // verus!
