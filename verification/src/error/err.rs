//! Shorthand constructors for common errors.
use vstd::prelude::*;

use super::AppError;

verus! {

/// A parse error with a message.
pub fn parse(msg: &str) -> (r: AppError)
    ensures
        r matches AppError::Parse(m) && m@ == msg@,
{
    AppError::Parse(msg.to_owned())
}

/// An internal error with a message.
pub fn internal(msg: &str) -> (r: AppError)
    ensures
        r matches AppError::Internal(m) && m@ == msg@,
{
    AppError::Internal(msg.to_owned())
}

} // verus!
