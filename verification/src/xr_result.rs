//! OpenXR result codes as plain numbers.

use vstd::prelude::*;

verus! {

/// A code returned by an OpenXR function. Zero is success, positive codes are qualified
/// successes, negative codes are errors.
#[derive(Debug, Clone, Copy, PartialEq, Eq, Structural)]
pub struct XrErr {
    pub code: i32,
}

pub type XrResult<T> = Result<T, XrErr>;

pub const SUCCESS: i32 = 0;

pub const ERROR_VALIDATION_FAILURE: i32 = -1;

pub const ERROR_RUNTIME_FAILURE: i32 = -2;

pub const ERROR_INITIALIZATION_FAILED: i32 = -6;

pub const ERROR_FEATURE_UNSUPPORTED: i32 = -8;

pub const ERROR_EXTENSION_NOT_PRESENT: i32 = -9;

pub const ERROR_SIZE_INSUFFICIENT: i32 = -11;

pub const ERROR_HANDLE_INVALID: i32 = -12;

pub const ERROR_SESSION_RUNNING: i32 = -14;

pub const ERROR_SESSION_NOT_RUNNING: i32 = -16;

pub const ERROR_CALL_ORDER_INVALID: i32 = -37;

impl XrErr {
    pub open spec fn spec_new(code: i32) -> XrErr {
        XrErr { code }
    }

    #[verifier::when_used_as_spec(spec_new)]
    pub fn new(code: i32) -> (r: XrErr)
        ensures
            r == XrErr::spec_new(code),
            r.code == code,
    {
        XrErr { code }
    }

    /// Exactly zero; a qualified success is not plain success.
    pub open spec fn spec_is_success(&self) -> bool {
        self.code == SUCCESS
    }

    #[verifier::when_used_as_spec(spec_is_success)]
    pub fn is_success(&self) -> (r: bool)
        ensures
            r == (self.code == SUCCESS),
    {
        self.code == SUCCESS
    }
}

/// Turns a code into a `Result`: plain success is `Ok`, every other code is the error itself.
pub fn xrcvt(e: XrErr) -> (r: XrResult<()>)
    ensures
        r == (if e.code == SUCCESS {
            XrResult::<()>::Ok(())
        } else {
            Err(e)
        }),
{
    if e.is_success() {
        Ok(())
    } else {
        Err(e)
    }
}

/// Only zero is plain success; any other code is an error, and the one that is passed on.
pub proof fn law_codes(e: XrErr, r: XrResult<()>)
    requires
        call_ensures(xrcvt, (e,), r),
    ensures
        r is Ok <==> e.code == 0,
        r matches Err(f) ==> f == e,
        e.is_success() <==> e.code == 0,
        XrErr::new(e.code) == e,
{
}

} // verus!
