//! A product and a price for it.

use vstd::prelude::*;

verus! {

/// A marketplace product with a price: on the way in, the net price that
/// the merchant wants; on the way out, the list price to set.
#[derive(Clone, Copy, Debug, PartialEq, Eq, Structural)]
pub struct Product {
    pub id: i32,
    pub price: i32,
}

impl Product {
    /// The product `id` with the price `price`.
    pub fn new(id: i32, price: i32) -> (p: Self)
        ensures
            p == (Product { id, price }),
    {
        Self { id, price }
    }
}

/// The ids of a list of products, in order.
pub open spec fn ids_of(products: Seq<Product>) -> Seq<i32> {
    Seq::new(products.len(), |i: int| products[i].id)
}

/// Whether the product at place `k` is the first of the list with its id.
pub open spec fn is_first_of_its_id(products: Seq<Product>, k: int) -> bool {
    forall|j: int| 0 <= j < k ==> (#[trigger] products[j]).id != products[k].id
}

/// Whether the product at place `k` is the first of the list with its id.
pub fn first_of_its_id(products: &Vec<Product>, k: usize) -> (first: bool)
    requires
        k < products.len(),
    ensures
        first == is_first_of_its_id(products@, k as int),
{
    let mut j: usize = 0;
    while j < k
        invariant
            j <= k < products.len(),
            forall|i: int| 0 <= i < j ==> (#[trigger] products@[i]).id != products@[k as int].id,
        decreases k - j,
    {
        if products[j].id == products[k].id {
            return false;
        }
        j = j + 1;
    }
    true
}

/// The ids of a list of products, in order.
pub fn product_ids(products: &Vec<Product>) -> (ids: Vec<i32>)
    ensures
        ids@ == ids_of(products@),
{
    let mut ids: Vec<i32> = Vec::new();
    let mut i: usize = 0;
    while i < products.len()
        invariant
            i <= products.len(),
            ids@ == ids_of(products@.take(i as int)),
        decreases products.len() - i,
    {
        ids.push(products[i].id);
        i = i + 1;
        assert(ids@ =~= ids_of(products@.take(i as int)));
    }
    assert(products@.take(i as int) =~= products@);
    ids
}

} // verus!
