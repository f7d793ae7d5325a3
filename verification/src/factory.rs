use vstd::prelude::*;

use crate::di_guard::DiGuard;
use crate::error::Error;
use crate::scoped_di_guard::ScopedDiGuard;
use crate::value::Value;

verus! {

/// A one-shot constructor of a value. The registry runs it when its key is
/// first resolved, and hands it the guard of that resolution, through which
/// it resolves what it depends on.
///
/// Nothing is asked of an implementation and nothing is promised of what it
/// returns: the registry checks the product against the kind that was
/// promised at registration.
pub trait Factory: Sized {
    /// Builds the value of a binding that was registered on the registry
    /// itself.
    fn build(self, guard: &mut DiGuard<Self>) -> Result<Value, Error>;

    /// Builds the value of a binding that was registered through a scope.
    fn build_scoped(self, guard: &mut ScopedDiGuard<Self>) -> Result<Value, Error>;
}

} // verus!
