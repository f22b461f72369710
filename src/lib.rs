//! Constraint synthesis for a zero-knowledge circuit compiler: a rank-1
//! constraint system with hole-tolerant variable slots, a snapshot codec
//! for persisting it, and the enforcement of conditional and circuit
//! instance expressions on top of it.

pub mod field;
pub mod synthesizer;
pub mod snapshot;
pub mod value;
pub mod enforce;
pub mod proving_key;
pub mod imports;
pub mod package_access;

pub use field::{check_canonical, FieldElement, FieldError};
pub use synthesizer::{CircuitSynthesizer, Index, Visibility};
pub use snapshot::{SerializedCircuit, SerializedField, SerializedIndex, SnapshotError};
pub use value::{BooleanValue, ConstrainedCircuitMember, ConstrainedValue, Span};
pub use enforce::{conditionally_select, Circuit, CircuitMember, ConstrainedProgram, GadgetError, Expression, ExpressionError, ExpressionNode, Program};
pub use proving_key::ProvingKeyFile;
pub use imports::{ImportParser, ImportParserError, Resolution};
pub use package_access::{ImportSymbol, Package, PackageAccess, Packages};
