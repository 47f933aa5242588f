//! Translation of primitive driver result codes into structured values.
//!
//! The underlying driver has two success conventions: some primitives succeed
//! exactly on zero, others on any non-negative value (which then carries a
//! handle). Each call site must use the entry point for its primitive's
//! convention; raw integers never travel past the boundary call site.

use vstd::prelude::*;

use crate::error::HddError;

verus! {

/// Decodes a primitive result under the convention that exactly zero means
/// success; any other value is a failure wrapped with `err_message`.
pub fn ok_on_zero_or_strerror(result: i32, err_message: &str) -> (r: Result<i32, HddError>)
    ensures
        r is Ok <==> result == 0,
        r matches Ok(v) ==> v == result,
        r matches Err(e) ==> e matches HddError::DriverFailure { context, code } && context@
            == err_message@ && code == result,
{
    ok_on_pred_or_strerror(result, err_message, result != 0)
}

/// Decodes a primitive result under the convention that any non-negative
/// value means success (the value itself is then a handle); a negative value
/// is a failure wrapped with `err_message`.
pub fn ok_on_nonnegative_or_strerror(result: i32, err_message: &str) -> (r: Result<i32, HddError>)
    ensures
        r is Ok <==> result >= 0,
        r matches Ok(v) ==> v == result,
        r matches Err(e) ==> e matches HddError::DriverFailure { context, code } && context@
            == err_message@ && code == result,
{
    ok_on_pred_or_strerror(result, err_message, result < 0)
}

/// Decodes a primitive result given whether its convention counts the value
/// as a failure; a failure carries the result code and the context message.
fn ok_on_pred_or_strerror(result: i32, err_message: &str, failed: bool) -> (r: Result<
    i32,
    HddError,
>)
    ensures
        r is Ok <==> !failed,
        r matches Ok(v) ==> v == result,
        r matches Err(e) ==> e matches HddError::DriverFailure { context, code } && context@
            == err_message@ && code == result,
{
    if failed {
        Err(HddError::DriverFailure { context: err_message.to_owned(), code: result })
    } else {
        Ok(result)
    }
}

} // verus!
