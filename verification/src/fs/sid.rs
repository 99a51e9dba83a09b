//! The session of a caller.
use vstd::prelude::*;

verus! {

/// The session id of the caller of an operation, or `None` when there is no usable
/// process id. `sid` is what `getsid` gives for `pid`.
///
/// `echo` and `cat` spawned from the same shell pipeline share a session id even
/// though their process ids differ, so keying invocation state on it routes results
/// back to the right caller. Some operations come with the process id 0; its session
/// would be that of the mount itself, which is wrong.
pub fn caller_sid(pid: u32, sid: i32) -> (r: Option<i32>)
    ensures
        r == (if pid == 0 || sid < 0 {
            None::<i32>
        } else {
            Some(sid)
        }),
{
    if pid == 0 {
        return None;
    }
    if sid < 0 {
        return None;
    }
    Some(sid)
}

} // verus!
