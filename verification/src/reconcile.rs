//! The reconciliation engine: brings the list prices of a merchant's
//! products to the net prices the merchant wants.
//!
//! The engine decides and the caller acts. A [`Reconciliation`] hands out one
//! [`Action`] at a time; the caller carries it out and hands back the
//! [`Event`] that tells how it went. Follow-ups of the products are taken out
//! of the registry before the first action is handed out.

use vstd::prelude::*;
use crate::calc::{count_new_basic, spec_count_new_basic};
use crate::error::ReconcileError;
use crate::json::Json;
use crate::product::{first_of_its_id, ids_of, is_first_of_its_id, product_ids, Product};
use crate::supplier::Supplier;
use crate::tasks::{dropped_handles, TaskRegistry};
use crate::goods::{spec_trackable, trackable};
use crate::wb::{
    get_prices, read_prices, spec_get_prices, spec_read_prices, PageView, PriceRequest,
    ProductPrice, ProductPricesPage,
};

verus! {

/// The seconds between a push and the check that follows it.
pub const VERIFY_DELAY: u64 = 10;

/// A new list price for a product, with the net price it is meant to reach
/// and the net price predicted for it before the rebate.
#[derive(Clone, Copy, Debug, PartialEq, Eq, Structural)]
pub struct PlannedUpdate {
    pub id: i32,
    pub target: i32,
    pub predicted: i32,
    pub new_price: i32,
}

/// The first of the observed rows that is for the product `id`, if there is
/// one.
pub open spec fn row_of(prices: Seq<ProductPrice>, id: i32) -> Option<ProductPrice>
    decreases prices.len(),
{
    if prices.len() == 0 {
        None
    } else if prices[0].id == id {
        Some(prices[0])
    } else {
        row_of(prices.drop_first(), id)
    }
}

/// The first of the observed rows that is for the product `id`.
pub fn find_row(prices: &Vec<ProductPrice>, id: i32) -> (row: Option<ProductPrice>)
    ensures
        row == row_of(prices@, id),
{
    let mut i: usize = 0;
    assert(prices@.skip(0) =~= prices@);
    while i < prices.len()
        invariant
            i <= prices.len(),
            row_of(prices@, id) == row_of(prices@.skip(i as int), id),
        decreases prices.len() - i,
    {
        assert(prices@.skip(i as int).drop_first() =~= prices@.skip(i + 1));
        assert(prices@.skip(i as int)[0] == prices@[i as int]);
        if prices[i].id == id {
            return Some(prices[i]);
        }
        i = i + 1;
    }
    None
}

/// The update for a product: its own target, and the list price that the
/// calculator gives for that target and the row observed for its id. None
/// where no row is for the product, or the calculator gives no price.
pub open spec fn spec_plan_one(product: Product, prices: Seq<ProductPrice>) -> Option<
    PlannedUpdate,
> {
    match row_of(prices, product.id) {
        Some(price) => match spec_count_new_basic(
            product.price as int,
            price.total as int,
            price.basic as int,
        ) {
            Some((predicted, new_price)) => Some(
                PlannedUpdate {
                    id: product.id,
                    target: product.price,
                    predicted: predicted as i32,
                    new_price: new_price as i32,
                },
            ),
            None => None,
        },
        None => None,
    }
}

/// The updates for the first `n` products, in their order. A product whose
/// id stood earlier in the list is left out, and so is one without an update.
pub open spec fn spec_plan(products: Seq<Product>, prices: Seq<ProductPrice>, n: nat) -> Seq<
    PlannedUpdate,
>
    decreases n,
{
    if n == 0 {
        Seq::empty()
    } else {
        let earlier = spec_plan(products, prices, (n - 1) as nat);
        if is_first_of_its_id(products, n - 1) {
            match spec_plan_one(products[n - 1], prices) {
                Some(update) => earlier.push(update),
                None => earlier,
            }
        } else {
            earlier
        }
    }
}

/// The updates for the products: each product is priced from its own target
/// and the row observed for its id, whatever the order of the rows.
pub open spec fn spec_plan_updates(products: Seq<Product>, prices: Seq<ProductPrice>) -> Seq<
    PlannedUpdate,
> {
    spec_plan(products, prices, products.len())
}

/// The update for one product.
pub fn plan_one(product: &Product, prices: &Vec<ProductPrice>) -> (r: Option<PlannedUpdate>)
    ensures
        r == spec_plan_one(*product, prices@),
{
    match find_row(prices, product.id) {
        Some(price) => match count_new_basic(product.price, price.total, price.basic) {
            Some((predicted, new_price)) => Some(
                PlannedUpdate { id: product.id, target: product.price, predicted, new_price },
            ),
            None => None,
        },
        None => None,
    }
}

/// Computes the new list price of each product from its own target and the
/// prices observed for its id. The order of the observed rows does not
/// matter; no product is priced twice.
pub fn plan_updates(products: &Vec<Product>, prices: &Vec<ProductPrice>) -> (plan: Vec<
    PlannedUpdate,
>)
    ensures
        plan@ == spec_plan_updates(products@, prices@),
        forall|i: int|
            0 <= i < plan@.len() ==> #[trigger] is_planned_from(
                products@,
                prices@,
                products@.len(),
                plan@[i],
            ),
        forall|i: int, j: int|
            0 <= i < j < plan@.len() ==> (#[trigger] plan@[i]).id != (#[trigger] plan@[j]).id,
{
    proof {
        law_updates_are_paired_by_id(products@, prices@);
    }
    let mut plan: Vec<PlannedUpdate> = Vec::new();
    let mut i: usize = 0;
    while i < products.len()
        invariant
            i <= products.len(),
            plan@ == spec_plan(products@, prices@, i as nat),
        decreases products.len() - i,
    {
        if first_of_its_id(products, i) {
            match plan_one(&products[i], prices) {
                Some(update) => {
                    plan.push(update);
                },
                None => {},
            }
        }
        i = i + 1;
    }
    plan
}

/// Whether `update` is the update for the product at place `k` of the
/// request, and that product the first with its id.
pub open spec fn is_update_of(
    products: Seq<Product>,
    prices: Seq<ProductPrice>,
    k: int,
    update: PlannedUpdate,
) -> bool {
    &&& 0 <= k < products.len()
    &&& is_first_of_its_id(products, k)
    &&& spec_plan_one(products[k], prices) == Some(update)
}

/// Whether `update` is the update for one of the first `n` products of the
/// request, the first with its id.
pub open spec fn is_planned_from(
    products: Seq<Product>,
    prices: Seq<ProductPrice>,
    n: nat,
    update: PlannedUpdate,
) -> bool {
    exists|k: int| k < n && #[trigger] is_update_of(products, prices, k, update)
}

/// Each update for the first `n` products is the update of one of them.
pub proof fn lemma_plan_members(products: Seq<Product>, prices: Seq<ProductPrice>, n: nat)
    requires
        n <= products.len(),
    ensures
        forall|i: int|
            0 <= i < spec_plan(products, prices, n).len() ==> #[trigger] is_planned_from(
                products,
                prices,
                n,
                spec_plan(products, prices, n)[i],
            ),
    decreases n,
{
    if n > 0 {
        let earlier = spec_plan(products, prices, (n - 1) as nat);
        let plan = spec_plan(products, prices, n);
        lemma_plan_members(products, prices, (n - 1) as nat);
        assert forall|i: int| 0 <= i < plan.len() implies #[trigger] is_planned_from(
            products,
            prices,
            n,
            plan[i],
        ) by {
            if i < earlier.len() {
                assert(is_planned_from(products, prices, (n - 1) as nat, earlier[i]));
                let k = choose|k: int|
                    k < n - 1 && #[trigger] is_update_of(products, prices, k, earlier[i]);
                assert(k < n && is_update_of(products, prices, k, plan[i]));
            } else {
                assert(is_update_of(products, prices, n - 1, plan[i]));
            }
        }
    }
}

/// Each of the first `n` products that has an update, and is the first with
/// its id, has it among the updates.
pub proof fn lemma_plan_complete(
    products: Seq<Product>,
    prices: Seq<ProductPrice>,
    n: nat,
    k: int,
    update: PlannedUpdate,
)
    requires
        n <= products.len(),
        k < n,
        is_update_of(products, prices, k, update),
    ensures
        spec_plan(products, prices, n).contains(update),
    decreases n,
{
    let earlier = spec_plan(products, prices, (n - 1) as nat);
    let plan = spec_plan(products, prices, n);
    if k < n - 1 {
        lemma_plan_complete(products, prices, (n - 1) as nat, k, update);
        let i = choose|i: int| 0 <= i < earlier.len() && earlier[i] == update;
        assert(plan[i] == update);
    } else {
        assert(plan[plan.len() - 1] == update);
    }
}

/// No two updates for the first `n` products have one id.
pub proof fn lemma_plan_distinct(products: Seq<Product>, prices: Seq<ProductPrice>, n: nat)
    requires
        n <= products.len(),
    ensures
        forall|i: int, j: int|
            0 <= i < j < spec_plan(products, prices, n).len() ==> (#[trigger] spec_plan(
                products,
                prices,
                n,
            )[i]).id != (#[trigger] spec_plan(products, prices, n)[j]).id,
    decreases n,
{
    if n > 0 {
        let earlier = spec_plan(products, prices, (n - 1) as nat);
        let plan = spec_plan(products, prices, n);
        lemma_plan_distinct(products, prices, (n - 1) as nat);
        lemma_plan_members(products, prices, (n - 1) as nat);
        assert forall|i: int, j: int| 0 <= i < j < plan.len() implies (#[trigger] plan[i]).id != (
        #[trigger] plan[j]).id by {
            if j < earlier.len() {
                assert(plan[i] == earlier[i] && plan[j] == earlier[j]);
            } else {
                assert(plan[i] == earlier[i]);
                assert(is_update_of(products, prices, n - 1, plan[j]));
                assert(is_planned_from(products, prices, (n - 1) as nat, earlier[i]));
                let k = choose|k: int|
                    k < n - 1 && #[trigger] is_update_of(products, prices, k, earlier[i]);
                assert(products[k].id != products[n - 1].id);
            }
        }
    }
}

/// Every id is priced from its own target, whatever the order of the
/// observed rows. Each update is the one for a product of the request, the
/// first with its id: it carries that id, that product's target, and the
/// price that the calculator gives for that target and the row observed for
/// that id. Each such product that has a row and a price has its update. No
/// id occurs twice, and an id without a row or without a request item has no
/// update.
pub proof fn law_updates_are_paired_by_id(products: Seq<Product>, prices: Seq<ProductPrice>)
    ensures
        forall|i: int|
            0 <= i < spec_plan_updates(products, prices).len() ==> #[trigger] is_planned_from(
                products,
                prices,
                products.len(),
                spec_plan_updates(products, prices)[i],
            ),
        forall|k: int, update: PlannedUpdate| #[trigger]
            is_update_of(products, prices, k, update) ==> spec_plan_updates(
                products,
                prices,
            ).contains(update),
        forall|i: int, j: int|
            0 <= i < j < spec_plan_updates(products, prices).len() ==> (
            #[trigger] spec_plan_updates(products, prices)[i]).id != (#[trigger] spec_plan_updates(
                products,
                prices,
            )[j]).id,
        forall|i: int|
            0 <= i < spec_plan_updates(products, prices).len() ==> (row_of(
                prices,
                (#[trigger] spec_plan_updates(products, prices)[i]).id,
            ) matches Some(row) && row.id == spec_plan_updates(products, prices)[i].id
                && prices.contains(row)),
{
    let plan = spec_plan_updates(products, prices);
    lemma_plan_members(products, prices, products.len());
    lemma_plan_distinct(products, prices, products.len());
    assert forall|k: int, update: PlannedUpdate| #[trigger]
        is_update_of(products, prices, k, update) implies plan.contains(update) by {
        lemma_plan_complete(products, prices, products.len(), k, update);
    }
    assert forall|i: int| 0 <= i < plan.len() implies (row_of(prices, (#[trigger] plan[i]).id)
        matches Some(row) && row.id == plan[i].id && prices.contains(row)) by {
        assert(is_planned_from(products, prices, products.len(), plan[i]));
        let k = choose|k: int|
            k < products.len() && #[trigger] is_update_of(products, prices, k, plan[i]);
        lemma_row_of(prices, plan[i].id);
    }
}

/// A row that is found is for the id that was looked for, and is one of the
/// rows.
pub proof fn lemma_row_of(prices: Seq<ProductPrice>, id: i32)
    ensures
        row_of(prices, id) matches Some(row) ==> row.id == id && prices.contains(row),
        row_of(prices, id) is None ==> forall|i: int|
            0 <= i < prices.len() ==> (#[trigger] prices[i]).id != id,
    decreases prices.len(),
{
    if prices.len() > 0 {
        if prices[0].id != id {
            lemma_row_of(prices.drop_first(), id);
            let rest = prices.drop_first();
            if row_of(rest, id) is Some {
                let row = row_of(rest, id).unwrap();
                let i = choose|i: int| 0 <= i < rest.len() && rest[i] == row;
                assert(prices[i + 1] == row);
            } else {
                assert forall|i: int| 0 <= i < prices.len() implies (#[trigger] prices[i]).id
                    != id by {
                    if i > 0 {
                        assert(rest[i - 1] == prices[i]);
                    }
                }
            }
        } else {
            assert(prices[0] == prices[0]);
        }
    }
}

/// The list prices to set: of each update the product and its new price.
pub open spec fn prices_to_push(plan: Seq<PlannedUpdate>) -> Seq<Product> {
    Seq::new(plan.len(), |i: int| Product { id: plan[i].id, price: plan[i].new_price })
}

/// The list prices to set.
pub fn to_push(plan: &Vec<PlannedUpdate>) -> (products: Vec<Product>)
    ensures
        products@ == prices_to_push(plan@),
{
    let mut products: Vec<Product> = Vec::new();
    let mut i: usize = 0;
    while i < plan.len()
        invariant
            i <= plan.len(),
            products@ == prices_to_push(plan@.take(i as int)),
        decreases plan.len() - i,
    {
        products.push(Product { id: plan[i].id, price: plan[i].new_price });
        i = i + 1;
        assert(products@ =~= prices_to_push(plan@.take(i as int)));
    }
    assert(plan@.take(i as int) =~= plan@);
    products
}

/// The correction for a product whose net price was observed again: none
/// where no row is for the product, or where the net price, in hundreds
/// rounded down, is the predicted one; else the list price that the
/// calculator gives for the target of the update and the prices observed now.
pub open spec fn spec_retry_one(update: PlannedUpdate, prices: Seq<ProductPrice>) -> Option<
    Product,
> {
    match row_of(prices, update.id) {
        Some(price) => if price.total as int / 100 != update.predicted {
            match spec_count_new_basic(
                update.target as int,
                price.total as int,
                price.basic as int,
            ) {
                Some((_, new_price)) => Some(Product { id: update.id, price: new_price as i32 }),
                None => None,
            }
        } else {
            None
        },
        None => None,
    }
}

/// Whether the update at place `k` is the first of the list with its id.
pub open spec fn is_first_update_of_its_id(updates: Seq<PlannedUpdate>, k: int) -> bool {
    forall|j: int| 0 <= j < k ==> (#[trigger] updates[j]).id != updates[k].id
}

/// The corrections for the first `n` updates, in their order. An update
/// whose id stood earlier in the list is left out, and so is one without a
/// correction.
pub open spec fn spec_retry(updates: Seq<PlannedUpdate>, prices: Seq<ProductPrice>, n: nat) -> Seq<
    Product,
>
    decreases n,
{
    if n == 0 {
        Seq::empty()
    } else {
        let earlier = spec_retry(updates, prices, (n - 1) as nat);
        if is_first_update_of_its_id(updates, n - 1) {
            match spec_retry_one(updates[n - 1], prices) {
                Some(product) => earlier.push(product),
                None => earlier,
            }
        } else {
            earlier
        }
    }
}

/// The correction for one product.
pub fn retry_one(update: &PlannedUpdate, prices: &Vec<ProductPrice>) -> (r: Option<Product>)
    ensures
        r == spec_retry_one(*update, prices@),
{
    match find_row(prices, update.id) {
        Some(price) => {
            let hundreds = crate::decimal::div_floor(price.total as i128, 100);
            if hundreds != update.predicted as i128 {
                match count_new_basic(update.target, price.total, price.basic) {
                    Some((_, new_price)) => Some(Product { id: update.id, price: new_price }),
                    None => None,
                }
            } else {
                None
            }
        },
        None => None,
    }
}

/// Whether the update at place `k` is the first of the list with its id.
pub fn first_update_of_its_id(updates: &Vec<PlannedUpdate>, k: usize) -> (first: bool)
    requires
        k < updates.len(),
    ensures
        first == is_first_update_of_its_id(updates@, k as int),
{
    let mut j: usize = 0;
    while j < k
        invariant
            j <= k < updates.len(),
            forall|i: int| 0 <= i < j ==> (#[trigger] updates@[i]).id != updates@[k as int].id,
        decreases k - j,
    {
        if updates[j].id == updates[k].id {
            return false;
        }
        j = j + 1;
    }
    true
}

/// The check that follows a push: from the updates that were pushed and the
/// prices observed afterwards, the list prices to push once more. Each update
/// is held against the row observed for its id, whatever the order of the
/// rows. An empty result asks for no push.
pub fn one_more_try(updated_products: &Vec<PlannedUpdate>, prices: &Vec<ProductPrice>) -> (products:
    Vec<Product>)
    ensures
        products@ == spec_retry(updated_products@, prices@, updated_products@.len()),
        forall|i: int, j: int|
            0 <= i < j < products@.len() ==> (#[trigger] products@[i]).id != (
            #[trigger] products@[j]).id,
{
    proof {
        law_corrections_are_paired_by_id(updated_products@, prices@);
    }
    let mut products: Vec<Product> = Vec::new();
    let mut i: usize = 0;
    while i < updated_products.len()
        invariant
            i <= updated_products.len(),
            products@ == spec_retry(updated_products@, prices@, i as nat),
        decreases updated_products.len() - i,
    {
        if first_update_of_its_id(updated_products, i) {
            match retry_one(&updated_products[i], prices) {
                Some(product) => {
                    products.push(product);
                },
                None => {},
            }
        }
        i = i + 1;
    }
    products
}

/// Whether `product` is the correction for the update at place `k`, and
/// that update the first with its id.
pub open spec fn is_correction_of(
    updates: Seq<PlannedUpdate>,
    prices: Seq<ProductPrice>,
    k: int,
    product: Product,
) -> bool {
    &&& 0 <= k < updates.len()
    &&& is_first_update_of_its_id(updates, k)
    &&& spec_retry_one(updates[k], prices) == Some(product)
}

/// Whether `product` is the correction for one of the first `n` updates,
/// the first with its id.
pub open spec fn is_corrected_from(
    updates: Seq<PlannedUpdate>,
    prices: Seq<ProductPrice>,
    n: nat,
    product: Product,
) -> bool {
    exists|k: int| k < n && #[trigger] is_correction_of(updates, prices, k, product)
}

/// Each correction for the first `n` updates is the correction of one of
/// them.
pub proof fn lemma_retry_members(updates: Seq<PlannedUpdate>, prices: Seq<ProductPrice>, n: nat)
    requires
        n <= updates.len(),
    ensures
        forall|i: int|
            0 <= i < spec_retry(updates, prices, n).len() ==> #[trigger] is_corrected_from(
                updates,
                prices,
                n,
                spec_retry(updates, prices, n)[i],
            ),
    decreases n,
{
    if n > 0 {
        let earlier = spec_retry(updates, prices, (n - 1) as nat);
        let retry = spec_retry(updates, prices, n);
        lemma_retry_members(updates, prices, (n - 1) as nat);
        assert forall|i: int| 0 <= i < retry.len() implies #[trigger] is_corrected_from(
            updates,
            prices,
            n,
            retry[i],
        ) by {
            if i < earlier.len() {
                assert(is_corrected_from(updates, prices, (n - 1) as nat, earlier[i]));
                let k = choose|k: int|
                    k < n - 1 && #[trigger] is_correction_of(updates, prices, k, earlier[i]);
                assert(k < n && is_correction_of(updates, prices, k, retry[i]));
            } else {
                assert(is_correction_of(updates, prices, n - 1, retry[i]));
            }
        }
    }
}

/// No two corrections for the first `n` updates have one id.
pub proof fn lemma_retry_distinct(updates: Seq<PlannedUpdate>, prices: Seq<ProductPrice>, n: nat)
    requires
        n <= updates.len(),
    ensures
        forall|i: int, j: int|
            0 <= i < j < spec_retry(updates, prices, n).len() ==> (#[trigger] spec_retry(
                updates,
                prices,
                n,
            )[i]).id != (#[trigger] spec_retry(updates, prices, n)[j]).id,
    decreases n,
{
    if n > 0 {
        let earlier = spec_retry(updates, prices, (n - 1) as nat);
        let retry = spec_retry(updates, prices, n);
        lemma_retry_distinct(updates, prices, (n - 1) as nat);
        lemma_retry_members(updates, prices, (n - 1) as nat);
        assert forall|i: int, j: int| 0 <= i < j < retry.len() implies (#[trigger] retry[i]).id
            != (#[trigger] retry[j]).id by {
            if j < earlier.len() {
                assert(retry[i] == earlier[i] && retry[j] == earlier[j]);
            } else {
                assert(retry[i] == earlier[i]);
                assert(is_correction_of(updates, prices, n - 1, retry[j]));
                assert(is_corrected_from(updates, prices, (n - 1) as nat, earlier[i]));
                let k = choose|k: int|
                    k < n - 1 && #[trigger] is_correction_of(updates, prices, k, earlier[i]);
                assert(updates[k].id != updates[n - 1].id);
            }
        }
    }
}

/// Every correction is for an update of its own id: it carries the id of an
/// update, the first with that id, and the price that the calculator gives
/// for that update's target and the row observed for that id. No id occurs
/// twice.
pub proof fn law_corrections_are_paired_by_id(
    updates: Seq<PlannedUpdate>,
    prices: Seq<ProductPrice>,
)
    ensures
        forall|i: int|
            0 <= i < spec_retry(updates, prices, updates.len()).len() ==> #[trigger]
                is_corrected_from(
                    updates,
                    prices,
                    updates.len(),
                    spec_retry(updates, prices, updates.len())[i],
                ),
        forall|i: int, j: int|
            0 <= i < j < spec_retry(updates, prices, updates.len()).len() ==> (
            #[trigger] spec_retry(updates, prices, updates.len())[i]).id != (#[trigger] spec_retry(
                updates,
                prices,
                updates.len(),
            )[j]).id,
{
    lemma_retry_members(updates, prices, updates.len());
    lemma_retry_distinct(updates, prices, updates.len());
}

/// The ids of the updates, in order.
pub open spec fn update_ids(updates: Seq<PlannedUpdate>) -> Seq<i32> {
    Seq::new(updates.len(), |i: int| updates[i].id)
}

/// The ids of the updates, in order.
pub fn ids_of_updates(updates: &Vec<PlannedUpdate>) -> (ids: Vec<i32>)
    ensures
        ids@ == update_ids(updates@),
{
    let mut ids: Vec<i32> = Vec::new();
    let mut i: usize = 0;
    while i < updates.len()
        invariant
            i <= updates.len(),
            ids@ == update_ids(updates@.take(i as int)),
        decreases updates.len() - i,
    {
        ids.push(updates[i].id);
        i = i + 1;
        assert(ids@ =~= update_ids(updates@.take(i as int)));
    }
    assert(updates@.take(i as int) =~= updates@);
    ids
}

/// The request with which the check that follows a push reads the prices
/// again: the one for the products of the updates.
pub fn follow_up_request(catalog_id: Option<i32>, updates: &Vec<PlannedUpdate>) -> (r: Result<
    PriceRequest,
    ReconcileError,
>)
    ensures
        r == spec_get_prices(catalog_id, update_ids(updates@)),
{
    let ids = ids_of_updates(updates);
    get_prices(catalog_id, &ids)
}

/// The list prices that the check pushes once more, or the error that ends
/// it.
pub open spec fn spec_follow_up_push(
    request: PriceRequest,
    updates: Seq<PlannedUpdate>,
    data: Json,
) -> Result<Seq<Product>, ReconcileError> {
    match spec_read_prices(request, update_ids(updates), data) {
        Ok(page) => Ok(spec_retry(updates, page.prices, updates.len())),
        Err(e) => Err(e),
    }
}

/// Lists of products as sequences, an error as itself.
pub open spec fn products_result(r: Result<Vec<Product>, ReconcileError>) -> Result<
    Seq<Product>,
    ReconcileError,
> {
    match r {
        Ok(products) => Ok(products@),
        Err(e) => Err(e),
    }
}

/// Reads the answer to the request of the check and gives the list prices to
/// push once more; an empty list asks for no push.
pub fn follow_up_push(request: &PriceRequest, updates: &Vec<PlannedUpdate>, data: &Json) -> (r:
    Result<Vec<Product>, ReconcileError>)
    ensures
        products_result(r) == spec_follow_up_push(*request, updates@, *data),
{
    let ids = ids_of_updates(updates);
    match read_prices(request, &ids, data) {
        Ok(page) => Ok(one_more_try(updates, &page.prices)),
        Err(e) => Err(e),
    }
}

/// The catalog id to store: the one the marketplace showed, where it showed
/// one and the store holds another or none.
pub open spec fn spec_learned_catalog_id(stored: Option<i32>, observed: Option<i32>) -> Option<
    i32,
> {
    match observed {
        Some(id) => if stored == Some(id) {
            None
        } else {
            Some(id)
        },
        None => None,
    }
}

/// The catalog id to store, if the answer of the marketplace taught one.
pub fn learned_catalog_id(stored: Option<i32>, observed: Option<i32>) -> (r: Option<i32>)
    ensures
        r == spec_learned_catalog_id(stored, observed),
{
    match observed {
        Some(id) => match stored {
            Some(known) => if known == id {
                None
            } else {
                Some(id)
            },
            None => Some(id),
        },
        None => None,
    }
}

/// What the engine waits for.
#[derive(Clone, Copy, Debug, PartialEq, Eq, Structural)]
pub enum Stage {
    /// The answer of the marketplace to the request for prices.
    Fetching,
    /// The store, which is writing the catalog id.
    StoringCatalogId,
    /// The answer of the marketplace to the push.
    Pushing,
    /// The store, which is reading the products it tracks for the merchant.
    LoadingGoods,
    /// The store, which is writing the tracked products.
    Tracking,
    /// The caller, which is starting the follow-ups.
    Scheduling,
}

/// What the caller is to do next.
#[derive(Clone, Debug, PartialEq, Eq)]
pub enum Action {
    /// Ask the marketplace for prices.
    Fetch { request: PriceRequest },
    /// Write the merchant's catalog id to the store.
    StoreCatalogId { catalog_id: i32 },
    /// Set the list prices at the marketplace, with the merchant's credential.
    Push { token: String, products: Vec<Product> },
    /// Read the products that the store tracks for the merchant.
    LoadGoods,
    /// Write the products and their targets to the store.
    Track { products: Vec<Product> },
    /// Start, for each update, the check that follows after the delay, and
    /// install its handle in the registry.
    FollowUp { updates: Vec<PlannedUpdate>, delay_seconds: u64 },
}

/// How an action went.
#[derive(Debug, PartialEq, Eq)]
pub enum Event {
    /// The marketplace answered the request for prices with this document,
    /// or, for `None`, did not answer.
    Fetched(Option<Json>),
    /// The store gave the products it tracks for the merchant, or, for
    /// `None`, failed.
    Goods(Option<Vec<Product>>),
    /// Another action went through, or failed.
    Completed(bool),
}

/// A reconciliation under way.
#[derive(Debug)]
pub struct Reconciliation {
    stage: Stage,
    catalog_id: Option<i32>,
    token: String,
    products: Vec<Product>,
    request: PriceRequest,
    plan: Vec<PlannedUpdate>,
}

/// A reconciliation under way, as mathematical values.
pub struct ReconciliationView {
    pub stage: Stage,
    pub catalog_id: Option<i32>,
    pub token: Seq<char>,
    pub products: Seq<Product>,
    pub request: PriceRequest,
    pub plan: Seq<PlannedUpdate>,
}

impl View for Reconciliation {
    type V = ReconciliationView;

    closed spec fn view(&self) -> ReconciliationView {
        ReconciliationView {
            stage: self.stage,
            catalog_id: self.catalog_id,
            token: self.token@,
            products: self.products@,
            request: self.request,
            plan: self.plan@,
        }
    }
}

/// An action as mathematical values.
pub enum ActionView {
    Fetch { request: PriceRequest },
    StoreCatalogId { catalog_id: i32 },
    Push { token: Seq<char>, products: Seq<Product> },
    LoadGoods,
    Track { products: Seq<Product> },
    FollowUp { updates: Seq<PlannedUpdate>, delay_seconds: u64 },
}

impl View for Action {
    type V = ActionView;

    open spec fn view(&self) -> ActionView {
        match self {
            Action::Fetch { request } => ActionView::Fetch { request: *request },
            Action::StoreCatalogId { catalog_id } => ActionView::StoreCatalogId {
                catalog_id: *catalog_id,
            },
            Action::Push { token, products } => ActionView::Push {
                token: token@,
                products: products@,
            },
            Action::LoadGoods => ActionView::LoadGoods,
            Action::Track { products } => ActionView::Track { products: products@ },
            Action::FollowUp { updates, delay_seconds } => ActionView::FollowUp {
                updates: updates@,
                delay_seconds: *delay_seconds,
            },
        }
    }
}

/// Where a reconciliation stands after a step.
#[derive(Debug)]
pub enum Outcome {
    /// The caller is to carry out the action and hand the event back.
    Continue(Reconciliation, Action),
    /// The reconciliation is over: with the list prices that were set, or
    /// with the reason why none were.
    Done(Result<Vec<Product>, ReconcileError>),
}

/// The state after a step, as mathematical values.
pub enum OutcomeView {
    Continue(ReconciliationView, ActionView),
    Done(Result<Seq<Product>, ReconcileError>),
}

impl View for Outcome {
    type V = OutcomeView;

    open spec fn view(&self) -> OutcomeView {
        match self {
            Outcome::Continue(state, action) => OutcomeView::Continue(state@, action@),
            Outcome::Done(Ok(products)) => OutcomeView::Done(Ok(products@)),
            Outcome::Done(Err(e)) => OutcomeView::Done(Err(*e)),
        }
    }
}

/// The step that hands out the push of the planned prices.
pub open spec fn spec_push(state: ReconciliationView) -> OutcomeView {
    OutcomeView::Continue(
        ReconciliationView { stage: Stage::Pushing, ..state },
        ActionView::Push { token: state.token, products: prices_to_push(state.plan) },
    )
}

/// The step after the prices were read: the plan is made; then the catalog
/// id is stored where the answer taught one, else the prices are pushed.
pub open spec fn spec_after_prices(state: ReconciliationView, page: PageView) -> OutcomeView {
    let planned = ReconciliationView {
        plan: spec_plan_updates(state.products, page.prices),
        ..state
    };
    match spec_learned_catalog_id(state.catalog_id, page.supplier_id) {
        Some(catalog_id) => OutcomeView::Continue(
            ReconciliationView {
                stage: Stage::StoringCatalogId,
                catalog_id: Some(catalog_id),
                ..planned
            },
            ActionView::StoreCatalogId { catalog_id },
        ),
        None => spec_push(planned),
    }
}

/// The first step for a merchant with the credential `token`.
pub open spec fn spec_begin(catalog_id: Option<i32>, token: Seq<char>, products: Seq<Product>)
    -> OutcomeView {
    match spec_get_prices(catalog_id, ids_of(products)) {
        Err(e) => OutcomeView::Done(Err(e)),
        Ok(request) => {
            let state = ReconciliationView {
                stage: Stage::Fetching,
                catalog_id,
                token,
                products,
                request,
                plan: Seq::empty(),
            };
            match request {
                PriceRequest::Nothing => spec_after_prices(
                    state,
                    PageView { supplier_id: None, total: None, prices: Seq::empty() },
                ),
                _ => OutcomeView::Continue(state, ActionView::Fetch { request }),
            }
        },
    }
}

/// The first step: without a credential the reconciliation fails with
/// `NoCredential`; several products without a catalog id fail with
/// `MissingCatalogId`; else the prices are asked for.
pub open spec fn spec_start(supplier: Supplier, products: Seq<Product>) -> OutcomeView {
    match supplier.wb_jwt {
        None => OutcomeView::Done(Err(ReconcileError::NoCredential)),
        Some(token) => spec_begin(supplier.wb_id, token@, products),
    }
}

/// The step that an event leads to.
pub open spec fn spec_step(state: ReconciliationView, event: Event) -> OutcomeView {
    match state.stage {
        Stage::Fetching => match event {
            Event::Fetched(Some(data)) => match spec_read_prices(
                state.request,
                ids_of(state.products),
                data,
            ) {
                Ok(page) => spec_after_prices(state, page),
                Err(e) => OutcomeView::Done(Err(e)),
            },
            _ => OutcomeView::Done(Err(ReconcileError::FetchFailed)),
        },
        Stage::StoringCatalogId => match event {
            Event::Completed(true) => spec_push(state),
            _ => OutcomeView::Done(Err(ReconcileError::RepoFailed)),
        },
        Stage::Pushing => match event {
            Event::Completed(true) => OutcomeView::Continue(
                ReconciliationView { stage: Stage::LoadingGoods, ..state },
                ActionView::LoadGoods,
            ),
            _ => OutcomeView::Done(Err(ReconcileError::PushFailed)),
        },
        Stage::LoadingGoods => match event {
            Event::Goods(Some(goods)) => OutcomeView::Continue(
                ReconciliationView { stage: Stage::Tracking, ..state },
                ActionView::Track {
                    products: spec_trackable(goods@, state.products, state.products.len()),
                },
            ),
            _ => OutcomeView::Done(Err(ReconcileError::RepoFailed)),
        },
        Stage::Tracking => match event {
            Event::Completed(true) => OutcomeView::Continue(
                ReconciliationView { stage: Stage::Scheduling, ..state },
                ActionView::FollowUp { updates: state.plan, delay_seconds: VERIFY_DELAY },
            ),
            _ => OutcomeView::Done(Err(ReconcileError::RepoFailed)),
        },
        Stage::Scheduling => OutcomeView::Done(Ok(prices_to_push(state.plan))),
    }
}

/// Starts the reconciliation of a merchant's products, each with its target
/// net price.
///
/// The follow-ups of all the products are taken out of the registry first
/// and handed back for the caller to cancel, whatever follows. Then the first
/// step is taken.
pub fn calculate_and_set_price<H>(
    registry: &mut TaskRegistry<H>,
    supplier: &Supplier,
    products: Vec<Product>,
) -> (r: (Vec<H>, Outcome))
    ensures
        final(registry)@ == old(registry)@.remove_keys(ids_of(products@).to_set()),
        r.0@ == dropped_handles(old(registry)@, ids_of(products@)),
        r.1@ == spec_start(*supplier, products@),
{
    let ids = product_ids(&products);
    let superseded = registry.drop_all(&ids);
    let token = match &supplier.wb_jwt {
        Some(token) => token.clone(),
        None => {
            return (superseded, Outcome::Done(Err(ReconcileError::NoCredential)));
        },
    };
    let request = match get_prices(supplier.wb_id, &ids) {
        Ok(request) => request,
        Err(e) => {
            return (superseded, Outcome::Done(Err(e)));
        },
    };
    let state = Reconciliation {
        stage: Stage::Fetching,
        catalog_id: supplier.wb_id,
        token,
        products,
        request,
        plan: Vec::new(),
    };
    match request {
        PriceRequest::Nothing => {
            let page = ProductPricesPage::default();
            (superseded, state.after_prices(&page))
        },
        _ => (superseded, Outcome::Continue(state, Action::Fetch { request })),
    }
}

impl Reconciliation {
    /// What the engine waits for.
    pub fn stage(&self) -> (stage: Stage)
        ensures
            stage == self@.stage,
    {
        self.stage
    }

    /// The step that hands out the push of the planned prices.
    fn push(self) -> (outcome: Outcome)
        ensures
            outcome@ == spec_push(self@),
    {
        let token = self.token.clone();
        let products = to_push(&self.plan);
        let next = Reconciliation { stage: Stage::Pushing, ..self };
        Outcome::Continue(next, Action::Push { token, products })
    }

    /// The step after the prices were read.
    fn after_prices(self, page: &ProductPricesPage) -> (outcome: Outcome)
        ensures
            outcome@ == spec_after_prices(self@, page@),
    {
        let plan = plan_updates(&self.products, &page.prices);
        let planned = Reconciliation { plan, ..self };
        match learned_catalog_id(planned.catalog_id, page.supplier_id) {
            Some(catalog_id) => {
                let next = Reconciliation {
                    stage: Stage::StoringCatalogId,
                    catalog_id: Some(catalog_id),
                    ..planned
                };
                Outcome::Continue(next, Action::StoreCatalogId { catalog_id })
            },
            None => planned.push(),
        }
    }

    /// Takes the next step: from what the engine waited for and how the
    /// action went, the next action, or the end of the reconciliation.
    ///
    /// A failed request for prices ends it with `FetchFailed`, or with
    /// `NotFound` where the card of the one product shows no price; a failed
    /// push with `PushFailed`; a failed read or write of the store with
    /// `RepoFailed`. Of the products of the request, only those are written
    /// to the store that may be tracked. The follow-ups are asked for only
    /// after the push and the write of the tracked products went through.
    pub fn step(self, event: Event) -> (outcome: Outcome)
        ensures
            outcome@ == spec_step(self@, event),
    {
        match self.stage {
            Stage::Fetching => match event {
                Event::Fetched(Some(data)) => {
                    let ids = product_ids(&self.products);
                    match read_prices(&self.request, &ids, &data) {
                        Ok(page) => self.after_prices(&page),
                        Err(e) => Outcome::Done(Err(e)),
                    }
                },
                _ => Outcome::Done(Err(ReconcileError::FetchFailed)),
            },
            Stage::StoringCatalogId => match event {
                Event::Completed(true) => self.push(),
                _ => Outcome::Done(Err(ReconcileError::RepoFailed)),
            },
            Stage::Pushing => match event {
                Event::Completed(true) => {
                    let next = Reconciliation { stage: Stage::LoadingGoods, ..self };
                    Outcome::Continue(next, Action::LoadGoods)
                },
                _ => Outcome::Done(Err(ReconcileError::PushFailed)),
            },
            Stage::LoadingGoods => match event {
                Event::Goods(Some(goods)) => {
                    let products = trackable(&goods, &self.products);
                    let next = Reconciliation { stage: Stage::Tracking, ..self };
                    Outcome::Continue(next, Action::Track { products })
                },
                _ => Outcome::Done(Err(ReconcileError::RepoFailed)),
            },
            Stage::Tracking => match event {
                Event::Completed(true) => {
                    let updates = self.plan.clone();
                    let next = Reconciliation { stage: Stage::Scheduling, ..self };
                    Outcome::Continue(
                        next,
                        Action::FollowUp { updates, delay_seconds: VERIFY_DELAY },
                    )
                },
                _ => Outcome::Done(Err(ReconcileError::RepoFailed)),
            },
            Stage::Scheduling => Outcome::Done(Ok(to_push(&self.plan))),
        }
    }
}

/// Follow-ups are asked for only once the push and the write of the tracked
/// products went through: no step that reports a failure, and no step at an
/// earlier stage, hands out that action.
pub proof fn law_follow_up_needs_success(state: ReconciliationView, event: Event)
    ensures
        spec_step(state, event) matches OutcomeView::Continue(_, ActionView::FollowUp { .. })
            ==> state.stage is Tracking && event == Event::Completed(true),
        spec_step(state, event) matches OutcomeView::Continue(_, ActionView::Track { .. })
            ==> state.stage is LoadingGoods && event matches Event::Goods(Some(_)),
        spec_step(state, event) matches OutcomeView::Continue(_, ActionView::LoadGoods)
            ==> state.stage is Pushing && event == Event::Completed(true),
{
}

/// A reconciliation of several products for a merchant whose catalog id is
/// not known ends at once with `MissingCatalogId`: nothing is asked of the
/// marketplace and nothing is pushed.
pub proof fn law_missing_catalog_id_ends_at_once(supplier: Supplier, products: Seq<Product>)
    requires
        supplier.wb_jwt is Some,
        supplier.wb_id is None,
        products.len() > 1,
    ensures
        spec_start(supplier, products) == OutcomeView::Done(
            Err(ReconcileError::MissingCatalogId),
        ),
{
}

/// A reconciliation for a merchant without a credential ends at once with
/// `NoCredential`.
pub proof fn law_no_credential_ends_at_once(supplier: Supplier, products: Seq<Product>)
    requires
        supplier.wb_jwt is None,
    ensures
        spec_start(supplier, products) == OutcomeView::Done(Err(ReconcileError::NoCredential)),
{
}

} // verus!
