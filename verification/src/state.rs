//! Application state handed to request handlers, and the rejection when it
//! is missing.

use vstd::prelude::*;
use vstd::string::*;

verus! {

/// Application state, cloned out of the request for a handler.
#[derive(Debug, Clone)]
pub struct NovaState<S>(pub S);

/// The request carried no application state.
#[derive(Debug)]
pub struct NovaStateRejection;

impl<S> NovaState<S> {
    /// The state found among the request's extensions, or the rejection
    /// when there is none.
    pub fn from_extension(found: Option<S>) -> (r: Result<NovaState<S>, NovaStateRejection>)
        ensures
            found matches Some(s) ==> r matches Ok(st) && st.0 == s,
            found is None ==> r is Err,
    {
        match found {
            Some(s) => Ok(NovaState(s)),
            None => Err(NovaStateRejection),
        }
    }
}

impl NovaStateRejection {
    /// The explanation, as the rejection's display form prints it.
    pub fn to_display_string(&self) -> (r: String)
        ensures
            r@ == "Application state is not present in request extensions. Ensure you added the state via `NovaApp::new()` and did not remove the `Extension` layer."@,
    {
        String::from_str(
            "Application state is not present in request extensions. Ensure you added the state via `NovaApp::new()` and did not remove the `Extension` layer.",
        )
    }

    /// The HTTP status of the rejection: 500.
    pub fn status_code(&self) -> (r: u16)
        ensures
            r == 500,
    {
        500
    }

    /// The response body of the rejection.
    pub fn body(&self) -> (r: &'static str)
        ensures
            r@ == "Internal server error: application state missing"@,
    {
        "Internal server error: application state missing"
    }
}

} // verus!
