//! A merchant as the store keeps it.

use vstd::prelude::*;

verus! {

/// A merchant: the key it presents, the marketplace's catalog id for it once
/// that is known, and its marketplace credential once it has set one.
#[derive(Clone, Debug, PartialEq, Eq)]
pub struct Supplier {
    pub api_key: u128,
    pub wb_id: Option<i32>,
    pub wb_jwt: Option<String>,
}

/// The greatest number of products that are tracked for one merchant.
pub const MAX_TRACKED: u32 = 100;

/// Where a page of `limit` merchants starts: page 1 at 0, page 2 at
/// `limit`, and so on.
pub open spec fn spec_page_window(limit: int, page: int) -> Option<(i64, i64)> {
    if page >= 1 && limit <= i64::MAX && (page - 1) * limit <= i64::MAX {
        Some((limit as i64, ((page - 1) * limit) as i64))
    } else {
        None
    }
}

/// The limit and the offset with which the store is asked for a page of
/// merchants. `None` for page 0, and where a number does not fit.
pub fn page_window(limit: usize, page: usize) -> (window: Option<(i64, i64)>)
    ensures
        window == spec_page_window(limit as int, page as int),
{
    if page == 0 || limit as u128 > i64::MAX as u128 {
        return None;
    }
    let before: u128 = (page - 1) as u128;
    assert(before * (limit as u128) <= 0xffff_ffff_ffff_ffff * 0xffff_ffff_ffff_ffff)
        by (nonlinear_arith)
        requires
            before <= 0xffff_ffff_ffff_ffff,
            limit <= 0xffff_ffff_ffff_ffff,
    ;
    let offset: u128 = before * (limit as u128);
    if offset > i64::MAX as u128 {
        return None;
    }
    Some((limit as i64, offset as i64))
}

} // verus!
