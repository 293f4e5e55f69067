//! Cosigning of a finalized host chain by external validator networks.
//!
//! The engine decides which finalized blocks must be cosigned, evaluates the
//! cosigns it was handed against a stake-weighted supermajority, and declares a
//! fault once enough stake has signed a block which disagrees with the local
//! view of the chain.

pub mod bytes;
pub mod cosign;
pub mod delay;
pub mod evaluator;
pub mod intake;
pub mod intend;
pub mod laws;
pub mod crypto;
pub mod primitives;
pub mod session;
pub mod state;
pub mod store;

pub use cosign::{Cosign, CosignIntent, HasEvents, SignedCosign, COSIGN_CONTEXT};
pub use delay::BROADCAST_FREQUENCY;
pub use primitives::{ExternalNetworkId, Id, NetworkId, Session, ValidatorSet};
pub use session::GlobalSession;
pub use state::{Cosigning, Faulted};
