//! Template filter helpers usable from the view layer.

use vstd::prelude::*;

verus! {

/// askama's rendering error type, declared so that a filter can keep the
/// templating crate's `Result` shape. No behaviour of it is relied upon:
/// the library never constructs or inspects a value of it.
#[verifier::external_type_specification]
#[verifier::external_body]
pub struct ExAskamaError(askama::Error);

/// Picks the `yes` alternative exactly when the condition is true, the `no`
/// alternative otherwise. It always succeeds; the error side of the result
/// only lets a formatting failure propagate as a rendering error, and is
/// never taken.
pub fn yes_no(condition: &bool, yes: &str, no: &str) -> (r: Result<String, askama::Error>)
    ensures
        r matches Ok(s) && s@ == (if *condition {
            yes@
        } else {
            no@
        }),
{
    if *condition {
        Ok(yes.to_owned())
    } else {
        Ok(no.to_owned())
    }
}

} // verus!
