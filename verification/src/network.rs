//! The parameters of a network.

use crate::halt::Halt;
use crate::native::CAPACITY;
use vstd::prelude::*;

verus! {

/// What a network fixes: its identifier and edition, and the limits on the
/// data that its programs handle.
pub trait Network {
    /// The network ID.
    const ID: u16;

    /// The edition of the network's executions.
    const EDITION: u16;

    /// The maximum recursive depth of a value and/or entry.
    const MAX_DATA_DEPTH: usize = 32;

    /// The maximum number of values and/or entries in data.
    const MAX_DATA_ENTRIES: usize = 32;

    /// The maximum number of inputs per transition.
    const MAX_INPUTS: usize = 8;

    /// The maximum number of outputs per transition.
    const MAX_OUTPUTS: usize = 8;

    /// The maximum number of transitions per transaction.
    const MAX_TRANSITIONS: usize = 16;

    /// The maximum number of transactions per block.
    const MAX_TRANSACTIONS: usize = 65536;

    /// The maximum number of field elements in data.
    const MAX_DATA_SIZE_IN_FIELDS: u32 = (128 * 1024 * 8) / CAPACITY;

    /// The maximum number of bytes allowed in a string.
    const MAX_STRING_BYTES: u32 = 255;

    /// Halts the program from further synthesis, evaluation, and execution
    /// in the current environment, with the given diagnostic.
    fn halt(message: &str) -> (r: Halt)
        ensures
            r@ == message@,
    {
        crate::halt::halt(message)
    }
}

/// The third test network.
#[derive(Clone, Copy, Debug, PartialEq, Eq, Hash)]
pub struct Testnet3;

impl Network for Testnet3 {
    const ID: u16 = 3;

    const EDITION: u16 = 0;
}

/// The parameters of the third test network.
pub proof fn lemma_testnet3_parameters()
    ensures
        Testnet3::ID == 3,
        Testnet3::EDITION == 0,
        Testnet3::MAX_DATA_DEPTH == 32,
        Testnet3::MAX_DATA_ENTRIES == 32,
        Testnet3::MAX_INPUTS == 8,
        Testnet3::MAX_OUTPUTS == 8,
        Testnet3::MAX_TRANSITIONS == 16,
        Testnet3::MAX_TRANSACTIONS == 65536,
        Testnet3::MAX_DATA_SIZE_IN_FIELDS == 4161,
        Testnet3::MAX_STRING_BYTES == 255,
{
}

} // verus!
