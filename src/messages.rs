//! Messages that front-ends show when their window system fails.
use vstd::prelude::*;
use vstd::string::StringExecFns;

verus! {

/// The text shown for an error reported by the window system.
pub open spec fn sdl_message(err: Seq<char>) -> Seq<char> {
    "[SDL ERROR]: "@ + err + "."@
}

/// Wraps an error of the window system as `[SDL ERROR]: <err>.`.
pub fn sdl_error(err: String) -> (r: String)
    ensures
        r@ == sdl_message(err@),
{
    let head = String::from_str("[SDL ERROR]: ");
    head.concat(err.as_str()).concat(".")
}

} // verus!
