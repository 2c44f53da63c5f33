//! What is logged of panics and call stacks on devices.
use crate::text::concat3;
use vstd::prelude::*;

verus! {

/// Whether logging and the panic hook have been installed.
#[derive(Debug, Clone, Copy, PartialEq, Eq, Structural)]
pub struct Diagnostics {
    pub installed: bool,
}

impl Diagnostics {
    /// Before anything has been installed.
    pub fn new() -> (r: Self)
        ensures
            !r.installed,
    {
        Diagnostics { installed: false }
    }

    /// Whether they have to be installed now: only the first call takes effect.
    pub fn init(&mut self) -> (r: bool)
        ensures
            r == !old(self).installed,
            final(self).installed,
    {
        let first = !self.installed;
        self.installed = true;
        first
    }
}

/// What is logged of a call stack.
pub fn backtrace_message(tag: &str, context: &str, backtrace: &str) -> (r: String)
    ensures
        r@ == tag@ + ": "@ + context@ + "\n"@ + backtrace@,
{
    let mut out = concat3(tag, ": ", context);
    out.append("\n");
    out.append(backtrace);
    out
}

} // verus!
