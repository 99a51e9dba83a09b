//! Error messages as a caller of a tool sees them.
use vstd::prelude::*;

verus! {

/// The text of an error with a code.
pub open spec fn error_text(code: Seq<char>, msg: Seq<char>) -> Seq<char> {
    "[ERROR:"@ + code + "] "@ + msg
}

/// The text of an error with a code.
pub fn format_error(code: &str, msg: &str) -> (r: String)
    ensures
        r@ == error_text(code@, msg@),
{
    let mut s = "[ERROR:".to_string();
    s.push_str(code);
    s.push_str("] ");
    s.push_str(msg);
    s
}

} // verus!
