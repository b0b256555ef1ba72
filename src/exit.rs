use vstd::prelude::*;

verus! {

/// The exit code of a process whose termination status is not known.
pub const UNKNOWN_EXIT_CODE: i32 = -1;

/// The exit code reported for a terminated process: its own code when it
/// exited normally, `128 + signal` when a signal ended it, `-1` otherwise.
pub open spec fn exit_code_of(code: Option<i32>, signal: Option<i32>) -> int {
    match code {
        Some(c) => c as int,
        None => match signal {
            Some(s) => 128 + s,
            None => UNKNOWN_EXIT_CODE as int,
        },
    }
}

/// Maps a termination status, given as its exit code and its terminating
/// signal, to a single integer exit code.
pub fn exit_code(code: Option<i32>, signal: Option<i32>) -> (r: i32)
    requires
        code is None ==> (signal matches Some(s) ==> s <= i32::MAX - 128),
    ensures
        r == exit_code_of(code, signal),
{
    match code {
        Some(c) => c,
        None => match signal {
            Some(s) => 128 + s,
            None => UNKNOWN_EXIT_CODE,
        },
    }
}

/// The write-once record of a process's exit code.
pub struct ExitCache {
    code: Option<i32>,
}

impl View for ExitCache {
    type V = Option<i32>;

    closed spec fn view(&self) -> Option<i32> {
        self.code
    }
}

impl ExitCache {
    pub fn new() -> (r: ExitCache)
        ensures
            r@ is None,
    {
        ExitCache { code: None }
    }

    /// The cached exit code, if the process is known to have terminated.
    pub fn known(&self) -> (r: Option<i32>)
        ensures
            r == self@,
    {
        self.code
    }

    /// Stores `code` unless a code is already there; returns the stored code.
    pub fn publish(&mut self, code: i32) -> (r: i32)
        ensures
            r == published(old(self)@, code),
            final(self)@ == Some(r),
    {
        match self.code {
            Some(c) => c,
            None => {
                self.code = Some(code);
                code
            },
        }
    }
}

/// The code that the cache holds after publishing `code` into `cache`.
pub open spec fn published(cache: Option<i32>, code: i32) -> i32 {
    match cache {
        Some(c) => c,
        None => code,
    }
}

/// The slot that holds the live OS process object until it is reaped.
pub struct ChildSlot<C> {
    child: Option<C>,
    pid: i32,
}

impl<C> ChildSlot<C> {
    pub closed spec fn is_present(&self) -> bool {
        self.child is Some
    }

    pub closed spec fn spec_pid(&self) -> i32 {
        self.pid
    }

    pub fn new(child: C, pid: i32) -> (r: ChildSlot<C>)
        ensures
            r.is_present(),
            r.spec_pid() == pid,
    {
        ChildSlot { child: Some(child), pid }
    }

    pub fn is_occupied(&self) -> (r: bool)
        ensures
            r == self.is_present(),
    {
        self.child.is_some()
    }

    /// The process id, while the process has not been reaped.
    pub fn pid(&self) -> (r: Option<i32>)
        ensures
            r == (if self.is_present() { Some(self.spec_pid()) } else { None::<i32> }),
    {
        if self.child.is_some() {
            Some(self.pid)
        } else {
            None
        }
    }

    /// Access to the live process object, for the OS-level wait.
    pub fn child_mut(&mut self) -> (r: Option<&mut C>)
        ensures
            r is Some <==> old(self).is_present(),
            final(self).is_present() == old(self).is_present(),
            final(self).spec_pid() == old(self).spec_pid(),
    {
        match &mut self.child {
            Some(c) => Some(c),
            None => None,
        }
    }

    pub(crate) fn clear(&mut self)
        ensures
            !final(self).is_present(),
            final(self).spec_pid() == old(self).spec_pid(),
    {
        self.child = None;
    }
}

} // verus!
