//! What system calls answer.

use vstd::prelude::*;

verus! {

/// A system call failed. Why it did is kept by the system.
#[derive(Clone, Copy, Debug, PartialEq, Eq, Structural)]
pub struct SyscallFailed;

/// What a system call answered: the one value `-1` means that it failed.
pub fn syscall(answer: i32) -> (result: Result<i32, SyscallFailed>)
    ensures
        answer == -1 ==> result == Err::<i32, SyscallFailed>(SyscallFailed),
        answer != -1 ==> result == Ok::<i32, SyscallFailed>(answer),
{
    if answer == -1 {
        Err(SyscallFailed)
    } else {
        Ok(answer)
    }
}

} // verus!
