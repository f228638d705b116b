//! The error taxonomy.  All structural errors are detected eagerly,
//! before execution or generation; no error is ever retried.

use vstd::prelude::*;

verus! {

/// Everything that can go wrong across the pipeline.
#[derive(PartialEq, Eq, Structural, Debug, Clone, Copy)]
pub enum Error {
    /// A `[` with no matching `]`: the resolver's stack is non-empty
    /// at the end of the stream.
    UnmatchedOpenBracket,
    /// A `]` with no `[` open: the resolver's stack is empty when a
    /// closing bracket arrives.
    UnmatchedCloseBracket,
    /// The native code generator's defensive balance re-validation
    /// failed.
    UnbalancedBrackets,
    /// An I/O callback reported failure during a native-mode run.
    IoFailure,
    /// An operation whose semantics the engine does not define.
    UnsupportedOperation,
    /// The interpreter's loop-iteration budget ran out before the
    /// program finished.
    OutOfFuel,
    /// The native backend could not verify or lower the constructed
    /// function.
    CodegenFailure,
}

} // verus!
