//! Which type names denote enum-like types.

use vstd::prelude::*;
use crate::text::str_equal;

verus! {

/// Type names that are known not to be enum-like.
pub open spec fn is_excluded(name: Seq<char>) -> bool {
    name == "Task"@ || name == "Env"@ || name == "TaskCB"@
}

/// A type is enum-like exactly when its name is not excluded.
pub open spec fn is_enum_spec(name: Seq<char>) -> bool {
    !is_excluded(name)
}

/// Classifies a type name: false for the excluded names, true for any other.
pub fn is_enum(name: &str) -> (r: bool)
    ensures
        r == is_enum_spec(name@),
{
    !str_equal(name, "Task") && !str_equal(name, "Env") && !str_equal(name, "TaskCB")
}

} // verus!
