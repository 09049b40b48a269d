use vstd::prelude::*;
use crate::DecodeError;
use crate::account::Account;
use crate::account::spec_decode_account;
use crate::error::Error;
use crate::error::spec_error_from_json;
use crate::json::JsonValue;
use crate::orders::Order;
use crate::orders::orders_from_json;
use crate::orders::orders_view;
use crate::orders::spec_decode_order;
use crate::orders::spec_decode_order_list;

verus! {

/// A failure surfaced to the caller of a request: a body that would not
/// decode, a structured error the service returned, or a non-success
/// response whose body was not even a well-formed error.
#[derive(Clone, Debug)]
pub enum ApiError {
    /// A success body failed to decode.
    Decode(DecodeError),
    /// The service answered with a structured error body.
    Remote(Error),
    /// The service answered non-success, and the body did not parse as
    /// a structured error: an infrastructure failure is not masked as an
    /// application error.
    MalformedErrorBody,
}

/// Turns a non-success body into the caller's error.
fn interpret_error_body(body: &JsonValue) -> (r: ApiError)
    ensures
        match spec_error_from_json(body@) {
            Ok(cm) => r matches ApiError::Remote(e) && e.code as int == cm.0 && e.message@ == cm.1,
            Err(_) => r is MalformedErrorBody,
        },
{
    match Error::from_json(body) {
        Ok(e) => ApiError::Remote(e),
        Err(_) => ApiError::MalformedErrorBody,
    }
}

/// Interprets an account-endpoint response: a success body must hold an
/// account snapshot; a non-success body must hold a structured error.
pub fn account_response(success: bool, body: &JsonValue) -> (r: Result<Account, ApiError>)
    ensures
        success ==> match spec_decode_account(body@) {
            Ok(ad) => r matches Ok(a) && a@ == ad,
            Err(e) => r matches Err(ae) && ae matches ApiError::Decode(e2) && e2 == e,
        },
        !success ==> match spec_error_from_json(body@) {
            Ok(cm) => r matches Err(ae) && ae matches ApiError::Remote(e) && e.code as int == cm.0
                && e.message@ == cm.1,
            Err(_) => r matches Err(ae) && ae is MalformedErrorBody,
        },
{
    if success {
        match Account::from_json(body) {
            Ok(a) => Ok(a),
            Err(e) => Err(ApiError::Decode(e)),
        }
    } else {
        Err(interpret_error_body(body))
    }
}

/// Interprets an order-endpoint response.
pub fn order_response(success: bool, body: &JsonValue) -> (r: Result<Order, ApiError>)
    ensures
        success ==> match spec_decode_order(body@) {
            Ok(od) => r matches Ok(o) && o@ == od,
            Err(e) => r matches Err(ae) && ae matches ApiError::Decode(e2) && e2 == e,
        },
        !success ==> match spec_error_from_json(body@) {
            Ok(cm) => r matches Err(ae) && ae matches ApiError::Remote(e) && e.code as int == cm.0
                && e.message@ == cm.1,
            Err(_) => r matches Err(ae) && ae is MalformedErrorBody,
        },
{
    if success {
        match Order::from_json(body) {
            Ok(o) => Ok(o),
            Err(e) => Err(ApiError::Decode(e)),
        }
    } else {
        Err(interpret_error_body(body))
    }
}

/// Interprets an order-list-endpoint response.
pub fn orders_response(success: bool, body: &JsonValue) -> (r: Result<Vec<Order>, ApiError>)
    ensures
        success ==> match spec_decode_order_list(body@) {
            Ok(ods) => r matches Ok(v) && orders_view(v@) == ods,
            Err(e) => r matches Err(ae) && ae matches ApiError::Decode(e2) && e2 == e,
        },
        !success ==> match spec_error_from_json(body@) {
            Ok(cm) => r matches Err(ae) && ae matches ApiError::Remote(e) && e.code as int == cm.0
                && e.message@ == cm.1,
            Err(_) => r matches Err(ae) && ae is MalformedErrorBody,
        },
{
    if success {
        match orders_from_json(body) {
            Ok(v) => Ok(v),
            Err(e) => Err(ApiError::Decode(e)),
        }
    } else {
        Err(interpret_error_body(body))
    }
}

/// Interprets a cancellation response, whose success carries no body
/// worth keeping.
pub fn cancel_response(success: bool, body: &JsonValue) -> (r: Result<(), ApiError>)
    ensures
        success ==> r is Ok,
        !success ==> match spec_error_from_json(body@) {
            Ok(cm) => r matches Err(ae) && ae matches ApiError::Remote(e) && e.code as int == cm.0
                && e.message@ == cm.1,
            Err(_) => r matches Err(ae) && ae is MalformedErrorBody,
        },
{
    if success {
        Ok(())
    } else {
        Err(interpret_error_body(body))
    }
}

} // verus!
