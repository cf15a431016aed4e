//! The visibility classification of circuit values.

use vstd::prelude::*;

verus! {

/// How widely a circuit value is known.
///
/// A `Constant` is known to every party and lives outside the witness; a
/// `Public` value is a circuit variable that the verifier sees; a `Private`
/// value is a circuit variable that only the prover knows.
#[derive(Clone, Copy, Debug, PartialEq, Eq, Structural, Hash)]
pub enum Mode {
    Constant,
    Public,
    Private,
}

impl Mode {
    /// Whether the mode is `Constant`.
    pub fn is_constant(&self) -> (r: bool)
        ensures
            r == (*self is Constant),
    {
        matches!(self, Mode::Constant)
    }

    /// Whether the mode is `Public`.
    pub fn is_public(&self) -> (r: bool)
        ensures
            r == (*self is Public),
    {
        matches!(self, Mode::Public)
    }

    /// Whether the mode is `Private`.
    pub fn is_private(&self) -> (r: bool)
        ensures
            r == (*self is Private),
    {
        matches!(self, Mode::Private)
    }
}

} // verus!
