//! Round-robin allocation of a fixed set of voices.
//!
//! Every new note goes to the next voice in turn, wrapping around after the
//! last one, whatever that voice was playing.

use vstd::prelude::*;

verus! {

/// The slot that comes after `index` among `count` voices, wrapping around to
/// the first after the last.
pub open spec fn next_slot(index: int, count: int) -> int {
    if index + 1 >= count { 0 } else { index + 1 }
}

/// The slot reached from `index` after `steps` notes among `count` voices.
pub open spec fn slot_after(index: int, count: int, steps: nat) -> int
    decreases steps,
{
    if steps == 0 {
        index
    } else {
        next_slot(slot_after(index, count, (steps - 1) as nat), count)
    }
}

/// A fixed set of voices and the index of the voice that plays the next note.
pub struct VoiceManager<V> {
    voices: Vec<V>,
    voice_index: usize,
}

impl<V> VoiceManager<V> {
    /// The voices, in order.
    pub closed spec fn voices_view(&self) -> Seq<V> {
        self.voices@
    }

    /// The index of the voice that plays the next note.
    pub closed spec fn next_index(&self) -> int {
        self.voice_index as int
    }

    /// The next index is that of a voice, or 0 when there is none.
    pub open spec fn wf(&self) -> bool {
        if self.voices_view().len() == 0 {
            self.next_index() == 0
        } else {
            0 <= self.next_index() < self.voices_view().len()
        }
    }

    /// A manager of `voices`; the first note goes to the first of them.
    pub fn new(voices: Vec<V>) -> (manager: Self)
        ensures
            manager.wf(),
            manager.voices_view() == voices@,
            manager.next_index() == 0,
    {
        VoiceManager { voices, voice_index: 0 }
    }

    /// The number of voices.
    pub fn len(&self) -> (n: usize)
        ensures
            n == self.voices_view().len(),
    {
        self.voices.len()
    }

    /// The voice that plays the next note, after which the turn passes to the
    /// following voice, wrapping around after the last. No other voice is
    /// touched.
    pub fn note_on(&mut self) -> (voice: &mut V)
        requires
            old(self).wf(),
            old(self).voices_view().len() > 0,
        ensures
            final(self).wf(),
            *voice == old(self).voices_view()[old(self).next_index()],
            final(self).voices_view() == old(self).voices_view().update(
                old(self).next_index(),
                *final(voice),
            ),
            final(self).next_index() == next_slot(
                old(self).next_index(),
                old(self).voices_view().len() as int,
            ),
    {
        let index = self.voice_index;
        let count = self.voices.len();
        self.voice_index = index + 1;
        if self.voice_index >= count {
            self.voice_index = 0;
        }
        &mut self.voices[index]
    }

    /// The voice at `index`.
    pub fn voice(&self, index: usize) -> (voice: &V)
        requires
            index < self.voices_view().len(),
        ensures
            *voice == self.voices_view()[index as int],
    {
        &self.voices[index]
    }

    /// The voice at `index`, to change it; no other voice is touched and the
    /// turn does not move.
    pub fn voice_mut(&mut self, index: usize) -> (voice: &mut V)
        requires
            index < old(self).voices_view().len(),
        ensures
            *voice == old(self).voices_view()[index as int],
            final(self).voices_view() == old(self).voices_view().update(index as int, *final(voice)),
            final(self).next_index() == old(self).next_index(),
    {
        &mut self.voices[index]
    }
}


/// Within one round of at most `count` notes the turn moves straight on from
/// `index`, wrapping around once past the last voice.
proof fn lemma_slot_within_round(index: int, count: int, steps: nat)
    requires
        0 <= index < count,
        steps <= count,
    ensures
        slot_after(index, count, steps) == if index + steps < count {
            index + steps
        } else {
            index + steps - count
        },
    decreases steps,
{
    if steps > 0 {
        lemma_slot_within_round(index, count, (steps - 1) as nat);
    }
}

/// After as many notes as there are voices, the turn is back where it started.
pub proof fn lemma_round_robin_returns(index: int, count: int)
    requires
        0 <= index < count,
    ensures
        slot_after(index, count, count as nat) == index,
{
    lemma_slot_within_round(index, count, count as nat);
}

/// Any run of as many notes as there are voices gives every note to a
/// different voice, so every voice gets exactly one of them; and the turn
/// always names a voice.
pub proof fn lemma_round_robin_fair(index: int, count: int, first: nat, second: nat)
    requires
        0 <= index < count,
        first < second < count,
    ensures
        slot_after(index, count, first) != slot_after(index, count, second),
        0 <= slot_after(index, count, first) < count,
        0 <= slot_after(index, count, second) < count,
{
    lemma_slot_within_round(index, count, first);
    lemma_slot_within_round(index, count, second);
}


/// The turn stays on a voice.
proof fn lemma_slot_in_range(index: int, count: int, steps: nat)
    requires
        0 <= index < count,
    ensures
        0 <= slot_after(index, count, steps) < count,
    decreases steps,
{
    if steps > 0 {
        lemma_slot_in_range(index, count, (steps - 1) as nat);
    }
}

/// Taking `first` and then `second` more turns is taking `first + second`.
proof fn lemma_slot_after_adds(index: int, count: int, first: nat, second: nat)
    ensures
        slot_after(index, count, first + second) == slot_after(
            slot_after(index, count, first),
            count,
            second,
        ),
    decreases second,
{
    if second > 0 {
        lemma_slot_after_adds(index, count, first, (second - 1) as nat);
        assert((first + second - 1) as nat == first + (second - 1) as nat);
    }
}

/// After any number of notes the turn stands at the start plus the number of
/// notes, modulo the number of voices.
pub proof fn lemma_slot_after_is_modulo(index: int, count: int, steps: nat)
    requires
        0 <= index < count,
    ensures
        slot_after(index, count, steps) == (index + steps) % count,
    decreases steps,
{
    if steps == 0 {
        vstd::arithmetic::div_mod::lemma_small_mod(index as nat, count as nat);
    } else {
        let k = (steps - 1) as nat;
        lemma_slot_after_is_modulo(index, count, k);
        let a = index + k;
        let r = a % count;
        let t = (a + 1) % count;
        vstd::arithmetic::div_mod::lemma_fundamental_div_mod(a, count);
        vstd::arithmetic::div_mod::lemma_fundamental_div_mod(a + 1, count);
        vstd::arithmetic::div_mod::lemma_mod_bound(a, count);
        vstd::arithmetic::div_mod::lemma_mod_bound(a + 1, count);
        let q = a / count;
        let q1 = (a + 1) / count;
        assert(a == count * q + r);
        assert(a + 1 == count * q1 + t);
        if r + 1 < count {
            assert(count * (q1 - q) == r + 1 - t) by (nonlinear_arith)
                requires
                    a == count * q + r,
                    a + 1 == count * q1 + t,
            ;
            assert(q1 - q == 0) by (nonlinear_arith)
                requires
                    count * (q1 - q) == r + 1 - t,
                    0 <= r + 1 < count,
                    0 <= t < count,
            ;
        } else {
            assert(count * (q1 - q) == r + 1 - t) by (nonlinear_arith)
                requires
                    a == count * q + r,
                    a + 1 == count * q1 + t,
            ;
            assert(q1 - q == 1) by (nonlinear_arith)
                requires
                    count * (q1 - q) == count - t,
                    0 <= t < count,
                    count > 0,
            ;
        }
    }
}

/// The values in a sequence after they were written in turn, the `m`-th of
/// `values` at the slot `m` turns after `index`: the voices after a run of
/// notes where the `m`-th note left its voice as `values[m]`, or the sample
/// ring after `values` were stored in it.
pub open spec fn after_turns<T>(s: Seq<T>, index: int, values: Seq<T>) -> Seq<T>
    decreases values.len(),
{
    if values.len() == 0 {
        s
    } else {
        after_turns(s, index, values.drop_last()).update(
            slot_after(index, s.len() as int, (values.len() - 1) as nat),
            values.last(),
        )
    }
}

/// One more note on top of a run of notes: the voice whose turn it is takes
/// the new value and the turn moves on, just as `VoiceManager::note_on`
/// states of one call; so a run of calls gives `after_turns`.
pub proof fn lemma_one_more_turn<T>(s: Seq<T>, index: int, values: Seq<T>, value: T)
    ensures
        after_turns(s, index, values.push(value)) == after_turns(s, index, values).update(
            slot_after(index, s.len() as int, values.len()),
            value,
        ),
        slot_after(index, s.len() as int, values.len() + 1) == next_slot(
            slot_after(index, s.len() as int, values.len()),
            s.len() as int,
        ),
{
    assert(values.push(value).drop_last() =~= values);
}

/// After any number of values written in turn, every slot holds the last value
/// written to it: each of the last `s.len()` values stands at its slot, and a
/// slot that no value reached keeps what it held.
pub proof fn lemma_turns_keep_latest<T>(s: Seq<T>, index: int, values: Seq<T>)
    requires
        0 <= index < s.len(),
    ensures
        after_turns(s, index, values).len() == s.len(),
        forall|j: int|
            0 <= j < values.len() && values.len() <= j + s.len() ==> #[trigger] after_turns(
                s,
                index,
                values,
            )[slot_after(index, s.len() as int, j as nat)] == values[j],
        forall|p: int|
            0 <= p < s.len() && (forall|j: int|
                0 <= j < values.len() ==> #[trigger] slot_after(index, s.len() as int, j as nat)
                    != p) ==> #[trigger] after_turns(s, index, values)[p] == s[p],
    decreases values.len(),
{
    if values.len() > 0 {
        let n = s.len() as int;
        let k = (values.len() - 1) as nat;
        let prefix = values.drop_last();
        lemma_turns_keep_latest(s, index, prefix);
        lemma_slot_in_range(index, n, k);
        let r = after_turns(s, index, values);
        assert forall|j: int|
            0 <= j < values.len() && values.len() <= j + n implies #[trigger] r[slot_after(
            index,
            n,
            j as nat,
        )] == values[j] by {
            if j < k {
                let start = slot_after(index, n, j as nat);
                lemma_slot_in_range(index, n, j as nat);
                lemma_slot_after_adds(index, n, j as nat, (k - j) as nat);
                assert((j as nat + (k - j) as nat) as nat == k);
                lemma_round_robin_fair(start, n, 0, (k - j) as nat);
                assert(prefix[j] == values[j]);
            }
        }
        assert forall|p: int|
            0 <= p < n && (forall|j: int|
                0 <= j < values.len() ==> #[trigger] slot_after(index, n, j as nat) != p) implies #[trigger] r[p]
            == s[p] by {
            assert(slot_after(index, n, k) != p);
            assert forall|j: int| 0 <= j < prefix.len() implies #[trigger] slot_after(index, n, j as nat) != p by {
                assert(slot_after(index, n, j as nat) != p);
            }
        }
    }
}

} // verus!
