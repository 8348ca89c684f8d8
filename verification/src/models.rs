//! Traits that application modules implement.

use vstd::prelude::*;

verus! {

/// A logical module of an application.
pub trait NovaModule {
    fn module_name(&self) -> &'static str;
}

} // verus!
