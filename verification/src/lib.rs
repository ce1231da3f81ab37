//! Deterministic simulator for a non-physical computational model built on
//! complex amplitude vectors, entangling interactions and a deterministic
//! collapse step ("stabilization").


pub mod amp;
pub mod base;
pub mod circuits;
pub mod idset;
pub mod laws;
pub mod operations;
pub mod simulation;
pub mod validation;
pub mod vm;

pub use amp::Amp;
pub use base::OnqError;
pub use base::PotentialityState;
pub use base::QduId;
pub use base::StableState;
pub use circuits::Circuit;
pub use circuits::CircuitBuilder;
pub use operations::Operation;
pub use simulation::SimulationResult;
pub use simulation::Simulator;
pub use validation::calculate_global_phase_coherence;
pub use validation::check_normalization;
pub use validation::check_phase_coherence;
pub use validation::validate_state;
pub use vm::program::LockType;
pub use vm::Instruction;
pub use vm::OnqVm;
pub use vm::Program;
pub use vm::ProgramBuilder;
