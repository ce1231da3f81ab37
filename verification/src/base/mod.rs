//! Fundamental types: unit identifiers, reference frames, potentiality and
//! resolved states, and the error kinds.

pub mod error;
pub mod frame;
pub mod qdu;
pub mod state;

pub use error::OnqError;
pub use error::QduId;
pub use frame::ReferenceFrame;
pub use qdu::Qdu;
pub use state::PotentialityState;
pub use state::StableState;
