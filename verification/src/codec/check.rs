//! Which property identifiers a packet may carry.
use vstd::prelude::*;
use vstd::std_specs::iter::IteratorSpec;
use std::collections::HashMap;
use crate::codec::property::{PropertyValue, PropertyValueModel};

verus! {

broadcast use vstd::std_specs::hash::group_hash_axioms;

/// Every identifier in `m` is one of `allowed`.
pub open spec fn keys_within(m: Map<u32, PropertyValueModel>, allowed: Seq<u32>) -> bool {
    forall|k: u32| m.contains_key(k) ==> allowed.contains(k)
}

/// Whether `key` is one of `allowed`.
fn code_listed(allowed: &[u32], key: u32) -> (b: bool)
    ensures
        b == allowed@.contains(key),
{
    let mut i: usize = 0;
    while i < allowed.len()
        invariant
            i <= allowed@.len(),
            forall|j: int| 0 <= j < i ==> allowed@[j] != key,
        decreases allowed@.len() - i,
    {
        if allowed[i] == key {
            return true;
        }
        i = i + 1;
    }
    false
}

/// Whether every identifier in `properties` is one of `allowed`.
pub(crate) fn keys_allowed(properties: &HashMap<u32, PropertyValue>, allowed: &[u32]) -> (ok: bool)
    ensures
        ok == (forall|k: u32| properties@.contains_key(k) ==> allowed@.contains(k)),
{
    let keys = properties.keys();
    let ghost order = keys.remaining();
    proof {
        assert(order.unref().to_set() == properties@.dom());
    }
    for key in it: keys
        invariant
            it.seq() == order,
            order.unref().to_set() == properties@.dom(),
            forall|i: int| 0 <= i < it.index() ==> allowed@.contains(*(#[trigger] order[i])),
    {
        if !code_listed(allowed, *key) {
            proof {
                let i = it.index() as int;
                assert(order.unref()[i] == *key);
                assert(order.unref().to_set().contains(*key));
            }
            return false;
        }
    }
    proof {
        assert forall|k: u32| properties@.contains_key(k) implies allowed@.contains(k) by {
            assert(order.unref().to_set().contains(k));
            let i = choose|i: int| 0 <= i < order.unref().len() && order.unref()[i] == k;
            assert(*order[i] == k);
        }
    }
    true
}

} // verus!
