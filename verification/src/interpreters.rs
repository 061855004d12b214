//! What runs a statement.

use crate::expression::DataBlock;
use vstd::prelude::*;

verus! {

/// The error type of `anyhow`, as interpreters return it. A value of it is
/// carried through and never looked into.
#[verifier::external_type_specification]
#[verifier::external_body]
pub struct ExAnyhowError(anyhow::Error);

/// The blocks that running a statement gives, in the order in which they
/// arrive.
pub type SendableDataBlockStream = Vec<DataBlock>;

/// Runs one statement.
pub trait IInterpreter: Sync + Send {
    /// The name of the interpreter, for logs and errors.
    fn name(&self) -> &str;

    /// Runs the statement and gives its result.
    fn execute(&self) -> Result<SendableDataBlockStream, anyhow::Error>;
}

} // verus!
