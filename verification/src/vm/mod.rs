//! The register-machine virtual machine: its instruction set, programs,
//! and the interpreter that runs them.

pub mod interpreter;
pub mod program;

pub use interpreter::OnqVm;
pub use program::Instruction;
pub use program::LockType;
pub use program::Program;
pub use program::ProgramBuilder;
