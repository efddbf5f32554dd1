use vstd::prelude::*;
use vstd::arithmetic::div_mod::lemma_add_mod_noop;

use crate::models::{BrowserSubKind, JunkCategory, JunkItem, cleanable};

verus! {

/// 2 to the 64th: sizes are summed modulo this, as `u64` addition wraps.
pub open spec fn size_modulus() -> nat {
    18446744073709551616
}

/// The number of items that satisfy `p`.
pub open spec fn count_of(items: Seq<JunkItem>, p: spec_fn(JunkItem) -> bool) -> nat
    decreases items.len(),
{
    if items.len() == 0 {
        0
    } else {
        count_of(items.drop_last(), p) + if p(items.last()) {
            1nat
        } else {
            0nat
        }
    }
}

/// The total size of the items that satisfy `p`.
pub open spec fn size_of(items: Seq<JunkItem>, p: spec_fn(JunkItem) -> bool) -> nat
    decreases items.len(),
{
    if items.len() == 0 {
        0
    } else {
        size_of(items.drop_last(), p) + if p(items.last()) {
            items.last().size as nat
        } else {
            0nat
        }
    }
}

/// The total size of the items that satisfy `p`, as a wrapping `u64` sum.
pub open spec fn wrapped_size_of(items: Seq<JunkItem>, p: spec_fn(JunkItem) -> bool) -> u64 {
    (size_of(items, p) % size_modulus()) as u64
}

/// Items of category `c`.
pub open spec fn in_category(c: JunkCategory) -> spec_fn(JunkItem) -> bool {
    |i: JunkItem| i.category == c
}

/// Selected items that may be cleaned.
pub open spec fn selected_cleanable(is_admin: bool) -> spec_fn(JunkItem) -> bool {
    |i: JunkItem| i.selected && cleanable(i, is_admin)
}

/// Selected items of category `c` that may be cleaned.
pub open spec fn selected_cleanable_in(c: JunkCategory, is_admin: bool) -> spec_fn(JunkItem) -> bool {
    |i: JunkItem| i.category == c && i.selected && cleanable(i, is_admin)
}

/// Items of category `c` and browser sub-kind `sub`.
pub open spec fn in_browser_sub(c: JunkCategory, sub: BrowserSubKind) -> spec_fn(JunkItem) -> bool {
    |i: JunkItem| i.category == c && i.browser_sub == Some(sub)
}

/// Counting one more item extends the count and size by that item.
pub proof fn lemma_tally_step(items: Seq<JunkItem>, p: spec_fn(JunkItem) -> bool, i: int)
    requires
        0 <= i < items.len(),
    ensures
        count_of(items.take(i + 1), p) == count_of(items.take(i), p) + if p(items[i]) {
            1nat
        } else {
            0nat
        },
        size_of(items.take(i + 1), p) == size_of(items.take(i), p) + if p(items[i]) {
            items[i].size as nat
        } else {
            0nat
        },
{
    assert(items.take(i + 1).drop_last() == items.take(i));
}

/// A count never exceeds the number of items.
pub proof fn lemma_count_bound(items: Seq<JunkItem>, p: spec_fn(JunkItem) -> bool)
    ensures
        count_of(items, p) <= items.len(),
    decreases items.len(),
{
    if items.len() > 0 {
        lemma_count_bound(items.drop_last(), p);
    }
}

/// Adding a size to a wrapped total wraps the exact total.
pub proof fn lemma_wrapping_add(total: nat, size: u64)
    ensures
        vstd::wrapping::u64_specs::wrapping_add((total % size_modulus()) as u64, size) == ((total
            + size as nat) % size_modulus()) as u64,
{
    let m: int = size_modulus() as int;
    let t: int = (total as int) % m;
    let z: int = size as int;
    lemma_add_mod_noop(total as int, z, m);
    vstd::arithmetic::div_mod::lemma_small_mod(size as nat, size_modulus());
    vstd::arithmetic::div_mod::lemma_mod_bound(total as int, m);
    if t + z >= m {
        vstd::arithmetic::div_mod::lemma_fundamental_div_mod(t + z, m);
        vstd::arithmetic::div_mod::lemma_mod_bound(t + z, m);
        assert((t + z) / m == 1) by {
            vstd::arithmetic::div_mod::lemma_div_pos_is_pos(t + z, m);
            if (t + z) / m >= 2 {
                assert(m * ((t + z) / m) >= m * 2) by (nonlinear_arith)
                    requires (t + z) / m >= 2, m > 0;
            }
        }
    } else {
        vstd::arithmetic::div_mod::lemma_small_mod((t + z) as nat, size_modulus());
    }
}

/// Adds one item's size to a running total, wrapping as `u64` addition does.
pub fn add_size(total: u64, size: u64) -> (r: u64)
    ensures
        r == vstd::wrapping::u64_specs::wrapping_add(total, size),
{
    total.wrapping_add(size)
}

} // verus!
