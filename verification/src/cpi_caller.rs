//! The counting caller: invokes the counting callee and succeeds when the
//! invocation did; the return data is only logged.

use vstd::prelude::*;
use crate::cpi::CpiError;

verus! {

/// The contract the counting caller invokes.
pub open spec fn callee() -> Seq<u8> {
    Seq::new(32, |i: int| 0xAAu8)
}

/// The caller's instruction: invoke [`callee`] with no data; the answer
/// goes to [`on_return`].
pub fn entrypoint() -> (r: ([u8; 32], Vec<u8>))
    ensures
        r.0@ == callee(),
        r.1@ == Seq::<u8>::empty(),
{
    let a = [0xAAu8; 32];
    assert(a@ =~= callee());
    (a, Vec::new())
}

/// The second step, once the host made the invocation: success exactly when
/// the invocation succeeded.
pub fn on_return(invoked: bool) -> (r: Result<(), CpiError>)
    ensures
        r == if invoked { Ok::<(), CpiError>(()) } else { Err(CpiError::InvokeFailed) },
{
    if invoked {
        Ok(())
    } else {
        Err(CpiError::InvokeFailed)
    }
}

} // verus!
