//! Decisions taken when telemetry starts.
use vstd::prelude::*;

verus! {

/// The deployment environment reported to telemetry: `"production"` when the
/// `PRODUCTION` variable is set, `"development"` otherwise.
pub fn deployment_environment(production: bool) -> (env: &'static str)
    ensures
        env@ == (if production {
            "production"@
        } else {
            "development"@
        }),
{
    if production {
        "production"
    } else {
        "development"
    }
}

} // verus!
