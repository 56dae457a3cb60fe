use vstd::prelude::*;

verus! {

/// Native status code of the hosting component runtime: negative means failure.
pub type HResult = i32;

/// The requested interface is not implemented by the object.
pub const E_NOINTERFACE: HResult = -2147467262;

/// No class of the requested identity is registered.
pub const CLASS_E_CLASSNOTAVAILABLE: HResult = -2147221231;

/// Whether a status code reports a failure.
pub open spec fn is_failure(result: HResult) -> bool {
    result < 0
}

/// Returns `true` exactly when the status code is negative.
pub fn failed(result: HResult) -> (r: bool)
    ensures
        r == is_failure(result),
{
    result < 0
}

} // verus!
