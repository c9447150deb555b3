//! The tape: sparse boolean storage over integer positions.
//!
//! A tape is the set of positions that are on; every other position is off.

use std::collections::HashSet;
use vstd::prelude::*;
use vstd::seq_lib::seq_to_set_is_finite;
use vstd::set_lib::lemma_subset_equality;
use vstd::std_specs::hash::{axiom_spec_hash_keys_iter, spec_hash_keys_iter};
use vstd::std_specs::iter::IteratorSpec;

verus! {

broadcast use vstd::std_specs::hash::group_hash_axioms;

/// The positions that are on, as mathematical integers.
pub open spec fn positions(tape: Set<i64>) -> Set<int> {
    Set::new(|p: int| i64::MIN <= p <= i64::MAX && tape.contains(p as i64))
}

/// The tape after `value` is written at `position`.
pub open spec fn written(tape: Set<int>, position: int, value: bool) -> Set<int> {
    if value {
        tape.insert(position)
    } else {
        tape.remove(position)
    }
}

/// A written bit reads back as it was written, and no other bit changes.
pub proof fn lemma_write_then_read(tape: Set<int>, position: int, value: bool, other: int)
    ensures
        written(tape, position, value).contains(position) == value,
        other != position ==> written(tape, position, value).contains(other) == tape.contains(
            other,
        ),
{
}

/// Every position of a tape has its integer among `positions`, and no other
/// integer is there.
pub proof fn lemma_positions_contains(tape: Set<i64>, position: i64)
    ensures
        positions(tape).contains(position as int) == tape.contains(position),
{
}

/// Two tapes hold the same integers only if they are the same tape.
pub proof fn lemma_positions_injective(a: Set<i64>, b: Set<i64>)
    ensures
        (positions(a) == positions(b)) == (a == b),
{
    if positions(a) == positions(b) {
        assert forall|p: i64| a.contains(p) == b.contains(p) by {
            lemma_positions_contains(a, p);
            lemma_positions_contains(b, p);
        }
        assert(a =~= b);
    }
}

/// The empty tape holds no integer.
pub proof fn lemma_positions_empty()
    ensures
        positions(Set::<i64>::empty()) == Set::<int>::empty(),
{
}

/// The positions that are on in a stored tape are finitely many.
pub proof fn lemma_tape_finite(tape: &HashSet<i64>)
    ensures
        tape@.finite(),
{
    axiom_spec_hash_keys_iter(tape);
    seq_to_set_is_finite(spec_hash_keys_iter(tape).remaining().unref());
}

/// Whether the bit at `position` is on.
pub fn read(tape: &HashSet<i64>, position: i64) -> (on: bool)
    ensures
        on == positions(tape@).contains(position as int),
{
    tape.contains(&position)
}

/// Turns the bit at `position` on or off.
pub fn write(tape: &mut HashSet<i64>, position: i64, value: bool)
    ensures
        positions(final(tape)@) == written(positions(old(tape)@), position as int, value),
{
    if value {
        tape.insert(position);
    } else {
        tape.remove(&position);
    }
}

/// A copy of `tape` that shares nothing with it.
pub fn copy(tape: &HashSet<i64>) -> (out: HashSet<i64>)
    ensures
        out@ == tape@,
{
    let mut out: HashSet<i64> = HashSet::new();
    for p in it: tape.iter()
        invariant
            it.seq().unref().to_set() == tape@,
            forall|q: i64|
                out@.contains(q) <==> exists|j: int| 0 <= j < it.index() && *#[trigger] it.seq()[j] == q,
            it.index() == it.seq().len() ==> out@ == tape@,
    {
        out.insert(*p);
        proof {
            let n = it.index() + 1;
            assert forall|q: i64| out@.contains(q) implies tape@.contains(q) by {
                let j = choose|j: int| 0 <= j < n && *#[trigger] it.seq()[j] == q;
                assert(it.seq().unref()[j] == q);
            }
        }
    }
    out
}

/// Whether two tapes have the same bits on.
pub fn same(a: &HashSet<i64>, b: &HashSet<i64>) -> (equal: bool)
    ensures
        equal == (positions(a@) == positions(b@)),
        equal == (a@ == b@),
{
    proof {
        lemma_positions_injective(a@, b@);
        lemma_tape_finite(a);
        lemma_tape_finite(b);
    }
    if a.len() != b.len() {
        return false;
    }
    for p in it: a.iter()
        invariant
            it.seq().unref().to_set() == a@,
            forall|j: int| 0 <= j < it.index() ==> b@.contains(*#[trigger] it.seq()[j]),
            it.index() == it.seq().len() ==> a@.subset_of(b@),
            a@.finite(),
            b@.finite(),
            a@.len() == b@.len(),
            (positions(a@) == positions(b@)) == (a@ == b@),
    {
        if !b.contains(p) {
            return false;
        }
    }
    proof {
        lemma_subset_equality(a@, b@);
    }
    true
}

/// The tape on which exactly the listed positions are on.
pub fn from_slice(on: &[i64]) -> (tape: HashSet<i64>)
    ensures
        tape@ == on@.to_set(),
{
    let mut tape: HashSet<i64> = HashSet::new();
    let mut i: usize = 0;
    while i < on.len()
        invariant
            i <= on.len(),
            tape@ == on@.take(i as int).to_set(),
        decreases on.len() - i,
    {
        tape.insert(on[i]);
        assert(on@.take(i + 1) =~= on@.take(i as int).push(on@[i as int]));
        proof {
            on@.take(i as int).lemma_push_to_set_commute(on@[i as int]);
        }
        i += 1;
    }
    assert(on@.take(on.len() as int) =~= on@);
    tape
}

/// The positions that are on, each once, in no particular order.
pub fn to_vec(tape: &HashSet<i64>) -> (on: Vec<i64>)
    ensures
        on@.no_duplicates(),
        on@.to_set() == tape@,
{
    let mut on: Vec<i64> = Vec::new();
    for p in it: tape.iter()
        invariant
            it.seq().unref().to_set() == tape@,
            it.seq().no_duplicates(),
            on@ == it.seq().unref().take(it.index()),
            it.index() == it.seq().len() ==> on@.to_set() == tape@,
            on@.no_duplicates(),
    {
        on.push(*p);
        proof {
            let n = it.index() + 1;
            let all = it.seq().unref();
            assert(on@ =~= all.take(n));
            assert(n == it.seq().len() ==> all.take(n) =~= all);
        }
    }
    on
}

} // verus!
