//! Arithmetic-circuit layer of a zero-knowledge virtual machine: field
//! elements that carry a visibility mode, a constraint-system backend, the
//! division operator compiled onto that backend, and the static cost model
//! that predicts what the operator consumes. Beside it stand the parameters
//! of a network and the container of an execution's transitions.

pub mod boolean;
pub mod circuit;
pub mod count;
pub mod div;
pub mod execution;
pub mod field;
pub mod halt;
pub mod mode;
pub mod native;
pub mod network;
pub mod transition;

pub use boolean::{Boolean, BooleanState};
pub use circuit::{Circuit, CircuitState, Constraint, Relation, ScopeState, Tally};
pub use count::Count;
pub use execution::{Execution, ExecutionError, ExecutionState};
pub use field::{CircuitType, Field, FieldState};
pub use halt::{halt, Halt};
pub use mode::Mode;
pub use native::FieldValue;
pub use network::{Network, Testnet3};
pub use transition::{Transition, TransitionState};
