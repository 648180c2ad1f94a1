use vstd::prelude::*;

use crate::engine::CheckResult;

verus! {

/// A request turned down by a check, with the check's reason.
#[derive(Debug)]
pub struct AccessDenied {
    pub reason: String,
}

impl AccessDenied {
    /// The caller-facing message: `access denied: ` followed by the reason.
    pub fn message(&self) -> (r: String)
        ensures
            r@ == "access denied: "@ + self.reason@,
    {
        let mut m = "access denied: ".to_string();
        m.append(self.reason.as_str());
        m
    }
}

/// Success when the check allowed, else a denial carrying the check's reason.
pub fn require_allowed(result: CheckResult) -> (r: Result<(), AccessDenied>)
    ensures
        r is Ok <==> result.allowed,
        r matches Err(d) ==> d.reason@ == result.reason@,
{
    if result.allowed {
        Ok(())
    } else {
        Err(AccessDenied { reason: result.reason })
    }
}

} // verus!
