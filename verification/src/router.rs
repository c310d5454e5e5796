//! What the transport answers to the commands of a merchant.

use vstd::prelude::*;
use crate::error::{AppError, ReconcileError};
use crate::product::Product;
use crate::supplier::{Supplier, MAX_TRACKED};
use crate::utils::{get_jwt_expire, jwt_expiry, spec_expire};

verus! {

/// When the merchant's marketplace credential expires, in milliseconds
/// since the epoch.
#[derive(Clone, Copy, Debug, PartialEq, Eq, Structural)]
pub struct JwtState {
    pub expiry: usize,
}

/// How many products are tracked for the merchant, and how many may be.
#[derive(Clone, Copy, Debug, PartialEq, Eq, Structural)]
pub struct Products {
    pub current: usize,
    pub max: u32,
}

/// The state of a merchant as the merchant may see it.
#[derive(Clone, Copy, Debug, PartialEq, Eq, Structural)]
pub struct UserState {
    pub jwt: Option<JwtState>,
    pub products: Products,
}

/// The list prices that a reconciliation has set.
#[derive(Clone, Debug, PartialEq, Eq)]
pub struct PriceSet {
    pub products: Vec<Product>,
}

/// The state of a merchant whose credential, if it has one, expires at
/// `expire` seconds, and who has `current` tracked products. None where the
/// expiry in milliseconds does not fit, or the count is negative.
pub open spec fn spec_user_state(expire: Option<usize>, current: int) -> Option<UserState> {
    if current < 0 || current > usize::MAX {
        None
    } else {
        let products = Products { current: current as usize, max: MAX_TRACKED };
        match expire {
            None => Some(UserState { jwt: None, products }),
            Some(seconds) => if seconds * 1000 <= usize::MAX {
                Some(
                    UserState {
                        jwt: Some(JwtState { expiry: (seconds * 1000) as usize }),
                        products,
                    },
                )
            } else {
                None
            },
        }
    }
}

/// The state of a merchant, from the expiry of its credential in seconds
/// and the count of its tracked products.
pub fn user_state(expire: Option<usize>, current_monitored: i64) -> (state: Option<UserState>)
    ensures
        state == spec_user_state(expire, current_monitored as int),
{
    if current_monitored < 0 || current_monitored as u64 > usize::MAX as u64 {
        return None;
    }
    let products = Products { current: current_monitored as usize, max: MAX_TRACKED };
    match expire {
        None => Some(UserState { jwt: None, products }),
        Some(seconds) => match seconds.checked_mul(1000) {
            Some(expiry) => Some(UserState { jwt: Some(JwtState { expiry }), products }),
            None => None,
        },
    }
}

/// What the merchant's credential says of its expiry: nothing without a
/// credential; else the seconds read from it, or the failure to read it.
pub open spec fn spec_credential_expiry(supplier: Supplier) -> Result<Option<usize>, Seq<char>> {
    match supplier.wb_jwt {
        None => Ok(None),
        Some(jwt) => match spec_expire(jwt_expiry(jwt@)) {
            Ok(seconds) => Ok(Some(seconds)),
            Err(text) => Err(text),
        },
    }
}

/// Answers the command that asks for the merchant's state. Fails with
/// `InternalServerError` where the credential cannot be read or a number
/// does not fit.
pub fn get_state(supplier: &Supplier, current_monitored: i64) -> (r: Result<UserState, AppError>)
    ensures
        match r {
            Ok(state) => spec_credential_expiry(*supplier) matches Ok(expire) && spec_user_state(
                expire,
                current_monitored as int,
            ) == Some(state),
            Err(e) => e is InternalServerError && (spec_credential_expiry(*supplier) matches Ok(
                expire,
            ) ==> spec_user_state(expire, current_monitored as int) is None),
        },
{
    let expire = match &supplier.wb_jwt {
        None => None,
        Some(jwt) => match get_jwt_expire(jwt.as_str()) {
            Ok(seconds) => Some(seconds),
            Err(text) => {
                return Err(AppError::unexpected(text.as_str()));
            },
        },
    };
    match user_state(expire, current_monitored) {
        Some(state) => Ok(state),
        None => Err(AppError::unexpected("state out of range")),
    }
}

/// Answers the command that sets a price: the list prices that were set, or
/// the error that the transport shows.
pub fn update_price(result: Result<Vec<Product>, ReconcileError>) -> (r: Result<PriceSet, AppError>)
    ensures
        match result {
            Ok(products) => r matches Ok(set) && set.products == products,
            Err(ReconcileError::NoCredential) => r matches Err(AppError::NoPermission(m)) && m@
                == "Need set JWT"@,
            Err(_) => r matches Err(AppError::InternalServerError),
        },
{
    match result {
        Ok(products) => Ok(PriceSet { products }),
        Err(e) => Err(AppError::from_reconcile(e)),
    }
}

} // verus!
