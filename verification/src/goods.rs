//! Which products of a request may be written to the store as tracked.
//!
//! The store keeps, for a merchant, each product once, with a target above
//! zero, and at most [`MAX_TRACKED`] products.

use vstd::prelude::*;
use crate::product::{first_of_its_id, ids_of, is_first_of_its_id, product_ids, Product};
use crate::supplier::MAX_TRACKED;
use crate::wb::contains_id;

verus! {

/// The number of the products that are not among the tracked ones.
pub open spec fn new_count(goods: Seq<Product>, items: Seq<Product>) -> nat
    decreases items.len(),
{
    if items.len() == 0 {
        0
    } else if ids_of(goods).contains(items.last().id) {
        new_count(goods, items.drop_last())
    } else {
        new_count(goods, items.drop_last()) + 1
    }
}

/// Whether the product at place `k` of the request may be tracked after the
/// products in `accepted`: its target is above zero, no product with its id
/// stands earlier in the request, and it is tracked already or there is room
/// for one more.
pub open spec fn may_track(
    goods: Seq<Product>,
    items: Seq<Product>,
    accepted: Seq<Product>,
    k: int,
) -> bool {
    &&& items[k].price > 0
    &&& is_first_of_its_id(items, k)
    &&& (ids_of(goods).contains(items[k].id) || goods.len() + new_count(goods, accepted)
        < MAX_TRACKED)
}

/// The products among the first `n` of the request that may be tracked, in
/// their order.
pub open spec fn spec_trackable(goods: Seq<Product>, items: Seq<Product>, n: nat) -> Seq<Product>
    decreases n,
{
    if n == 0 {
        Seq::empty()
    } else {
        let earlier = spec_trackable(goods, items, (n - 1) as nat);
        if may_track(goods, items, earlier, n - 1) {
            earlier.push(items[n - 1])
        } else {
            earlier
        }
    }
}

/// Chooses, from the products of a request, those that may be written to the
/// store, given the products that the store tracks for the merchant now.
///
/// A product is left out where its target is not above zero, where its id
/// stood earlier in the request, and where it is not tracked yet and the
/// merchant has no room for another product.
pub fn trackable(goods: &Vec<Product>, items: &Vec<Product>) -> (accepted: Vec<Product>)
    ensures
        accepted@ == spec_trackable(goods@, items@, items@.len()),
        forall|i: int| 0 <= i < accepted@.len() ==> items@.contains(#[trigger] accepted@[i]),
        forall|i: int| 0 <= i < accepted@.len() ==> (#[trigger] accepted@[i]).price > 0,
        forall|i: int, j: int|
            0 <= i < j < accepted@.len() ==> (#[trigger] accepted@[i]).id != (
            #[trigger] accepted@[j]).id,
        goods@.len() <= MAX_TRACKED ==> goods@.len() + new_count(goods@, accepted@)
            <= MAX_TRACKED,
{
    proof {
        law_goods_stay_in_bounds(goods@, items@);
    }
    let goods_ids = product_ids(goods);
    let mut accepted: Vec<Product> = Vec::new();
    let mut fresh: usize = 0;
    let mut i: usize = 0;
    while i < items.len()
        invariant
            i <= items.len(),
            goods_ids@ == ids_of(goods@),
            accepted@ == spec_trackable(goods@, items@, i as nat),
            fresh == new_count(goods@, accepted@),
            fresh <= i,
        decreases items.len() - i,
    {
        let item = items[i];
        let known = contains_id(&goods_ids, item.id);
        let room = goods.len() < MAX_TRACKED as usize && fresh < MAX_TRACKED as usize
            - goods.len();
        if item.price > 0 && first_of_its_id(items, i) && (known || room) {
            proof {
                assert(accepted@.push(item).drop_last() =~= accepted@);
            }
            accepted.push(item);
            if !known {
                fresh = fresh + 1;
            }
        }
        i = i + 1;
    }
    accepted
}

/// Whether `item` is the product at place `k` of the request, and the first
/// with its id.
pub open spec fn is_item_at(items: Seq<Product>, k: int, item: Product) -> bool {
    &&& 0 <= k < items.len()
    &&& is_first_of_its_id(items, k)
    &&& items[k] == item
}

/// Whether `item` is one of the first `n` products of the request, the
/// first with its id.
pub open spec fn is_taken_from(items: Seq<Product>, n: nat, item: Product) -> bool {
    exists|k: int| k < n && #[trigger] is_item_at(items, k, item)
}

/// Each product chosen among the first `n` is one of them, with a target
/// above zero.
pub proof fn lemma_trackable_members(goods: Seq<Product>, items: Seq<Product>, n: nat)
    requires
        n <= items.len(),
    ensures
        forall|i: int|
            0 <= i < spec_trackable(goods, items, n).len() ==> #[trigger] is_taken_from(
                items,
                n,
                spec_trackable(goods, items, n)[i],
            ),
        forall|i: int|
            0 <= i < spec_trackable(goods, items, n).len() ==> (#[trigger] spec_trackable(
                goods,
                items,
                n,
            )[i]).price > 0,
    decreases n,
{
    if n > 0 {
        let earlier = spec_trackable(goods, items, (n - 1) as nat);
        let now = spec_trackable(goods, items, n);
        lemma_trackable_members(goods, items, (n - 1) as nat);
        assert forall|i: int| 0 <= i < now.len() implies (#[trigger] now[i]).price > 0 by {
            if i < earlier.len() {
                assert(now[i] == earlier[i]);
            }
        }
        assert forall|i: int| 0 <= i < now.len() implies #[trigger] is_taken_from(
            items,
            n,
            now[i],
        ) by {
            if i < earlier.len() {
                assert(is_taken_from(items, (n - 1) as nat, earlier[i]));
                let k = choose|k: int| k < n - 1 && #[trigger] is_item_at(items, k, earlier[i]);
                assert(k < n && is_item_at(items, k, now[i]));
            } else {
                assert(is_item_at(items, n - 1, now[i]));
            }
        }
    }
}

/// No two products chosen among the first `n` have one id, and with the
/// products that are kept already they do not go over the limit.
pub proof fn lemma_trackable_bounds(goods: Seq<Product>, items: Seq<Product>, n: nat)
    requires
        n <= items.len(),
    ensures
        forall|i: int, j: int|
            0 <= i < j < spec_trackable(goods, items, n).len() ==> (#[trigger] spec_trackable(
                goods,
                items,
                n,
            )[i]).id != (#[trigger] spec_trackable(goods, items, n)[j]).id,
        goods.len() <= MAX_TRACKED ==> goods.len() + new_count(
            goods,
            spec_trackable(goods, items, n),
        ) <= MAX_TRACKED,
    decreases n,
{
    if n > 0 {
        let earlier = spec_trackable(goods, items, (n - 1) as nat);
        let now = spec_trackable(goods, items, n);
        lemma_trackable_bounds(goods, items, (n - 1) as nat);
        lemma_trackable_members(goods, items, (n - 1) as nat);
        if may_track(goods, items, earlier, n - 1) {
            assert(now.drop_last() =~= earlier);
        }
        assert forall|i: int, j: int| 0 <= i < j < now.len() implies (#[trigger] now[i]).id != (
        #[trigger] now[j]).id by {
            if j < earlier.len() {
                assert(now[i] == earlier[i] && now[j] == earlier[j]);
            } else {
                assert(now[i] == earlier[i]);
                assert(is_taken_from(items, (n - 1) as nat, earlier[i]));
                let k = choose|k: int| k < n - 1 && #[trigger] is_item_at(items, k, earlier[i]);
                assert(items[k].id != items[n - 1].id);
            }
        }
    }
}

/// Writing the chosen products keeps what the store holds of a merchant in
/// order: each chosen product is one of the request, has a target above
/// zero, and no two have one id; and where the merchant had at most the
/// limit before, the products kept already and the new ones among the chosen
/// are at most the limit together.
pub proof fn law_goods_stay_in_bounds(goods: Seq<Product>, items: Seq<Product>)
    ensures
        forall|i: int|
            0 <= i < spec_trackable(goods, items, items.len()).len() ==> items.contains(
                #[trigger] spec_trackable(goods, items, items.len())[i],
            ),
        forall|i: int|
            0 <= i < spec_trackable(goods, items, items.len()).len() ==> (
            #[trigger] spec_trackable(goods, items, items.len())[i]).price > 0,
        forall|i: int, j: int|
            0 <= i < j < spec_trackable(goods, items, items.len()).len() ==> (
            #[trigger] spec_trackable(goods, items, items.len())[i]).id != (
            #[trigger] spec_trackable(goods, items, items.len())[j]).id,
        goods.len() <= MAX_TRACKED ==> goods.len() + new_count(
            goods,
            spec_trackable(goods, items, items.len()),
        ) <= MAX_TRACKED,
{
    lemma_trackable_members(goods, items, items.len());
    lemma_trackable_bounds(goods, items, items.len());
    let chosen = spec_trackable(goods, items, items.len());
    assert forall|i: int| 0 <= i < chosen.len() implies items.contains(#[trigger] chosen[i]) by {
        assert(is_taken_from(items, items.len(), chosen[i]));
        let k = choose|k: int| k < items.len() && #[trigger] is_item_at(items, k, chosen[i]);
        assert(items[k] == chosen[i]);
    }
}

} // verus!
