//! How loud a failure is reported.

use vstd::prelude::*;

verus! {

/// How loud something is reported.
#[derive(Clone, Copy, Debug, PartialEq, Eq, Structural)]
pub enum Severity {
    Info,
    Error,
}

} // verus!
