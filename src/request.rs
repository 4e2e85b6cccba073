use vstd::prelude::*;
use crate::pool::{DbConn, Pool, PoolError, release_step};

verus! {

/// The one failure kind that a request reports.
#[derive(Clone, Copy, Debug, PartialEq, Eq, Structural)]
pub enum ApiError {
    /// The pool was never constructed.
    PoolUnavailable,
    /// No connection could be leased: transient, the client may retry.
    PoolExhausted,
    /// The database rejected or failed the operation.
    Storage,
    /// The route or the identifier names nothing.
    NotFound,
    /// The request body is malformed.
    BadRequest,
}

/// The HTTP status that answers a failure of the given kind.
pub open spec fn status_spec(e: ApiError) -> u16 {
    match e {
        ApiError::PoolUnavailable => 500,
        ApiError::PoolExhausted => 503,
        ApiError::Storage => 500,
        ApiError::NotFound => 404,
        ApiError::BadRequest => 400,
    }
}

/// The failure kind of a request whose lease failed.
pub open spec fn lease_error_spec(e: PoolError) -> ApiError {
    match e {
        PoolError::Unavailable => ApiError::PoolUnavailable,
        PoolError::Exhausted => ApiError::PoolExhausted,
    }
}

pub fn status_code(e: ApiError) -> (r: u16)
    ensures
        r == status_spec(e),
{
    match e {
        ApiError::PoolUnavailable => 500,
        ApiError::PoolExhausted => 503,
        ApiError::Storage => 500,
        ApiError::NotFound => 404,
        ApiError::BadRequest => 400,
    }
}

pub fn lease_error(e: PoolError) -> (r: ApiError)
    ensures
        r == lease_error_spec(e),
{
    match e {
        PoolError::Unavailable => ApiError::PoolUnavailable,
        PoolError::Exhausted => ApiError::PoolExhausted,
    }
}

/// The HTTP status of a finished request: 200 on success.
pub fn response_status<T>(r: &Result<T, ApiError>) -> (s: u16)
    ensures
        s == match r {
            Ok(_) => 200u16,
            Err(e) => status_spec(*e),
        },
{
    match r {
        Ok(_) => 200,
        Err(e) => status_code(*e),
    }
}

/// Starts a request: leases one connection from the pool. A pool that was
/// never constructed fails the request with `PoolUnavailable`, an exhausted
/// one with `PoolExhausted`.
pub fn acquire<C>(pool: &mut Option<Pool<C>>) -> (r: Result<DbConn<C>, ApiError>)
    ensures
        (*old(pool)) is None ==> r == Err::<DbConn<C>, ApiError>(ApiError::PoolUnavailable)
            && (*final(pool)) is None,
        (*old(pool)) is Some ==> (*final(pool)) is Some && (r is Ok <==> crate::pool::has_idle(
            (*old(pool))->Some_0@,
        )) && (r is Err ==> r == Err::<DbConn<C>, ApiError>(ApiError::PoolExhausted))
            && crate::pool::lease_step(
            (*old(pool))->Some_0@,
            match r {
                Ok(l) => Some(l.slot_spec()),
                Err(_) => None,
            },
            (*final(pool))->Some_0@,
        ),
{
    match pool.take() {
        None => Err(ApiError::PoolUnavailable),
        Some(mut p) => {
            let r = p.lease();
            *pool = Some(p);
            match r {
                Ok(l) => Ok(l),
                Err(e) => Err(lease_error(e)),
            }
        },
    }
}

/// Ends a request: gives its connection back to the pool, whatever the
/// outcome of the work done with it, and reports that outcome.
pub fn finish<C, T>(pool: &mut Pool<C>, lease: DbConn<C>, outcome: Result<T, ApiError>) -> (r:
    Result<T, ApiError>)
    ensures
        r == outcome,
        final(pool)@ == release_step(old(pool)@, lease.slot_spec()),
{
    pool.release(lease);
    outcome
}

/// The outcome of an update once storage has answered with the number of
/// rows it changed: the targeted identifier, whether or not a record had it.
pub fn update_outcome(id: i32, rows: Result<usize, ApiError>) -> (r: Result<i32, ApiError>)
    ensures
        rows is Ok ==> r == Ok::<i32, ApiError>(id),
        rows is Err ==> r == Err::<i32, ApiError>(rows->Err_0),
{
    match rows {
        Ok(_) => Ok(id),
        Err(e) => Err(e),
    }
}

/// The outcome of a delete once storage has answered with the number of rows
/// it removed: deleting an absent identifier is no error.
pub fn delete_outcome(rows: Result<usize, ApiError>) -> (r: Result<(), ApiError>)
    ensures
        rows is Ok ==> r is Ok,
        rows is Err ==> r == Err::<(), ApiError>(rows->Err_0),
{
    match rows {
        Ok(_) => Ok(()),
        Err(e) => Err(e),
    }
}

/// The plain-text greeting of the root route.
pub fn index() -> (r: &'static str)
    ensures
        r@ == "Hello, world!"@,
{
    "Hello, world!"
}

/// The JSON body that answers a route that names nothing.
pub fn not_found_body() -> (r: String)
    ensures
        r@ == "{\"status\":\"error\",\"reason\":\"Resource was not found.\"}"@,
{
    "{\"status\":\"error\",\"reason\":\"Resource was not found.\"}".to_owned()
}

} // verus!
