//! Results of POSIX calls.

use vstd::prelude::*;

verus! {

/// The result of a POSIX call that reports failure with a negative number:
/// `Ok` with the number when it is not negative, `Err` with it otherwise.
pub fn check_err(num: i32) -> (r: Result<i32, i32>)
    ensures
        num >= 0 ==> r == Ok::<i32, i32>(num),
        num < 0 ==> r == Err::<i32, i32>(num),
{
    if num < 0 {
        Err(num)
    } else {
        Ok(num)
    }
}

} // verus!
