//! What the control API decides: the rules of its handlers, apart from the
//! stores and the transport.
use vstd::prelude::*;

pub mod autonomy;
pub mod chronicle;
pub mod goals;
pub mod prompts;
pub mod tasks;
pub mod wakes;

verus! {

/// The status of a response.
#[derive(Debug, Clone, Copy, PartialEq, Eq, Structural)]
pub enum Status {
    Accepted,
    BadRequest,
    NotFound,
    Conflict,
    PayloadTooLarge,
    Internal,
    Unavailable,
}

impl Status {
    /// The number of a status.
    pub fn code(self) -> (code: u16)
        ensures
            code == (match self {
                Status::Accepted => 202u16,
                Status::BadRequest => 400u16,
                Status::NotFound => 404u16,
                Status::Conflict => 409u16,
                Status::PayloadTooLarge => 413u16,
                Status::Internal => 500u16,
                Status::Unavailable => 503u16,
            }),
    {
        match self {
            Status::Accepted => 202,
            Status::BadRequest => 400,
            Status::NotFound => 404,
            Status::Conflict => 409,
            Status::PayloadTooLarge => 413,
            Status::Internal => 500,
            Status::Unavailable => 503,
        }
    }
}

/// A store could not be read or written.
#[derive(Debug, Clone, Copy, PartialEq, Eq, Structural)]
pub struct StoreError;

/// A refused request, with what is said of it.
#[derive(Debug)]
pub struct ApiError {
    pub status: Status,
    pub message: &'static str,
}

impl View for ApiError {
    type V = (Status, Seq<char>);

    open spec fn view(&self) -> (Status, Seq<char>) {
        (self.status, self.message@)
    }
}

/// A refused request.
pub(crate) fn refuse(status: Status, message: &'static str) -> (error: ApiError)
    ensures
        error@ == (status, message@),
{
    ApiError { status, message }
}

/// A number held between two others.
pub open spec fn clamped(n: int, low: int, high: int) -> int {
    if n < low {
        low
    } else if n > high {
        high
    } else {
        n
    }
}

/// Holds a number between two others.
pub fn clamp(n: i64, low: i64, high: i64) -> (held: i64)
    requires
        low <= high,
    ensures
        held == clamped(n as int, low as int, high as int),
{
    if n < low {
        low
    } else if n > high {
        high
    } else {
        n
    }
}

/// A store, once it is initialized.
pub open spec fn initialized<T>(store: Option<T>) -> Result<T, Status> {
    match store {
        Some(store) => Ok(store),
        None => Err(Status::Unavailable),
    }
}

/// Extracts a store, unavailable as long as it is not initialized.
pub fn store_or_unavailable<T>(store: Option<T>) -> (answer: Result<T, Status>)
    ensures
        answer == initialized(store),
{
    match store {
        Some(store) => Ok(store),
        None => Err(Status::Unavailable),
    }
}

/// What was looked up, where the store could be read and holds it.
pub open spec fn looked_up<T>(found: Result<Option<T>, StoreError>) -> Result<T, Status> {
    match found {
        Err(_) => Err(Status::Internal),
        Ok(None) => Err(Status::NotFound),
        Ok(Some(found)) => Ok(found),
    }
}

/// Answers with what was looked up: a store that fails is an internal error,
/// and what it does not hold is not found.
pub fn found_or_status<T>(found: Result<Option<T>, StoreError>) -> (answer: Result<T, Status>)
    ensures
        answer == looked_up(found),
{
    match found {
        Err(_) => Err(Status::Internal),
        Ok(None) => Err(Status::NotFound),
        Ok(Some(found)) => Ok(found),
    }
}

// ---------------------------------------------------------------------------
// Laws
// ---------------------------------------------------------------------------

/// A clamped number lies within its bounds and is itself where it did already.
pub proof fn law_clamping_keeps_what_lies_within(n: int, low: int, high: int)
    requires
        low <= high,
    ensures
        low <= clamped(n, low, high) <= high,
        low <= n <= high ==> clamped(n, low, high) == n,
        n < low ==> clamped(n, low, high) == low,
        n > high ==> clamped(n, low, high) == high,
{
}

/// A store that is missing is unavailable, one that fails is a failure, and what
/// it does not hold is not found.
pub proof fn law_a_lookup_tells_why_it_found_nothing<T>(store: Option<T>, found: Result<Option<T>, StoreError>)
    ensures
        store is Some ==> initialized(store) == Ok::<T, Status>(store->0),
        store is None ==> initialized(store) == Err::<T, Status>(Status::Unavailable),
        found matches Ok(Some(held)) ==> looked_up(found) == Ok::<T, Status>(held),
        found matches Ok(None) ==> looked_up(found) == Err::<T, Status>(Status::NotFound),
        found is Err ==> looked_up(found) == Err::<T, Status>(Status::Internal),
{
}

} // verus!
