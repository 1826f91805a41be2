//! Values that a test function may return.

use vstd::prelude::*;

verus! {

/// Marks the types that may implement `Termination`.
pub trait Sealed {}

impl Sealed for () {}

impl Sealed for Result<(), String> {}

/// Arbitrary return values in test cases.
pub trait Termination: Sealed + Sized {
    /// Whether this value denotes a successful run.
    spec fn succeeded(&self) -> bool;

    /// The value returned by a test function that stops early on purpose.
    fn exit() -> (r: Self)
        ensures
            r.succeeded(),
    ;

    /// Whether the returned value denotes success, and the error otherwise.
    fn into_result(self) -> (r: Result<(), String>)
        ensures
            r is Ok <==> self.succeeded(),
    ;
}

impl Termination for () {
    open spec fn succeeded(&self) -> bool {
        true
    }

    fn exit() -> (r: Self) {
    }

    fn into_result(self) -> (r: Result<(), String>)
        ensures
            r is Ok,
    {
        Ok(())
    }
}

impl Termination for Result<(), String> {
    open spec fn succeeded(&self) -> bool {
        self is Ok
    }

    fn exit() -> (r: Self)
        ensures
            r is Ok,
    {
        Ok(())
    }

    fn into_result(self) -> (r: Result<(), String>)
        ensures
            r == self,
    {
        self
    }
}

/// The process exit code for a returned result: 0 on success, 101 on error.
pub open spec fn exit_code_of(ok: bool) -> i32 {
    if ok {
        0
    } else {
        101
    }
}

/// The exit code of a test process whose main function returned `t`.
pub fn exit_code<T: Termination>(t: T) -> (code: i32)
    ensures
        code == exit_code_of(t.succeeded()),
{
    match t.into_result() {
        Ok(()) => 0,
        Err(_) => 101,
    }
}

} // verus!
