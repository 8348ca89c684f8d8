//! Small string-keyed tables held as vectors of `(key, value)` pairs, where
//! the first pair with a key is the one that counts.

use vstd::prelude::*;
use vstd::string::*;
use crate::cqrs::{slot_of, find_slot, lemma_slot_of_bound, lemma_slot_of_same_keys, lemma_slot_of_push};
use crate::discovery::{drop_key, lemma_drop_key_push, lemma_slot_of_drop_key, same_text};

verus! {

/// The value a table holds for `key`, if any.
pub open spec fn keyed_value<V>(slots: Seq<(String, V)>, key: Seq<char>) -> Option<V> {
    let i = slot_of(slots, key);
    if i >= 0 { Some(slots[i].1) } else { None }
}

/// Sets the value of `key`, replacing an earlier one in place or appending
/// a new pair.
pub fn keyed_put<V>(slots: &mut Vec<(String, V)>, key: &str, value: V)
    ensures
        keyed_value(final(slots)@, key@) == Some(value),
        forall|k: Seq<char>| k != key@ ==> #[trigger] keyed_value(final(slots)@, k) == keyed_value(old(slots)@, k),
{
    let ghost old_l = slots@;
    match find_slot(slots, key) {
        Some(i) => {
            let (k0, _) = slots.remove(i);
            slots.insert(i, (k0, value));
            assert forall|k: Seq<char>| true implies slot_of(slots@, k) == slot_of(old_l, k) by {
                lemma_slot_of_same_keys(slots@, old_l, k);
            }
            assert forall|k: Seq<char>| k != key@ implies #[trigger] keyed_value(slots@, k) == keyed_value(old_l, k) by {
                lemma_slot_of_bound(old_l, k);
                let j = slot_of(old_l, k);
                if j >= 0 {
                    assert(j != i);
                    assert(slots@[j] == old_l[j]);
                }
            }
        },
        None => {
            let ghost entry_key = key@;
            let k1 = String::from_str(key);
            slots.push((k1, value));
            let ghost entry = slots@.last();
            assert(slots@ =~= old_l.push(entry));
            assert forall|k: Seq<char>| true implies (k == key@ ==> slot_of(slots@, k) == old_l.len())
                && (k != key@ ==> (slot_of(slots@, k) < 0 <==> slot_of(old_l, k) < 0)) && (k != key@
                && slot_of(old_l, k) >= 0 ==> slot_of(slots@, k) == slot_of(old_l, k)) by {
                lemma_slot_of_push(old_l, entry, k);
            }
            assert forall|k: Seq<char>| k != key@ implies #[trigger] keyed_value(slots@, k) == keyed_value(old_l, k) by {
                lemma_slot_of_bound(old_l, k);
                let j = slot_of(old_l, k);
                if j >= 0 {
                    assert(slots@[j] == old_l[j]);
                }
            }
        },
    }
}

/// Removes every pair with `key`.
pub fn keyed_remove<V>(slots: &mut Vec<(String, V)>, key: &str)
    ensures
        keyed_value(final(slots)@, key@) is None,
        forall|k: Seq<char>| k != key@ ==> #[trigger] keyed_value(final(slots)@, k) == keyed_value(old(slots)@, k),
{
    let ghost orig = slots@;
    let mut rest: Vec<(String, V)> = Vec::new();
    std::mem::swap(&mut rest, slots);
    let n = rest.len();
    let mut out: Vec<(String, V)> = Vec::new();
    let mut i: usize = 0;
    assert(drop_key(orig.take(0), key@) =~= Seq::<(String, V)>::empty());
    while i < n
        invariant
            n == orig.len(),
            i <= n,
            rest@ == orig.subrange(i as int, n as int),
            out@ == drop_key(orig.take(i as int), key@),
        decreases n - i,
    {
        let x = rest.remove(0);
        assert(orig[i as int] == x);
        assert(orig.take(i + 1) =~= orig.take(i as int).push(x));
        proof {
            lemma_drop_key_push(orig.take(i as int), x, key@);
        }
        if !same_text(x.0.as_str(), key) {
            out.push(x);
        }
        i = i + 1;
        assert(rest@ =~= orig.subrange(i as int, n as int));
    }
    assert(orig.take(n as int) =~= orig);
    *slots = out;
    assert forall|k: Seq<char>| true implies (k == key@ ==> keyed_value(slots@, k) is None) && (k != key@
        ==> #[trigger] keyed_value(slots@, k) == keyed_value(orig, k)) by {
        lemma_slot_of_drop_key(orig, key@, k);
    }
}

} // verus!
