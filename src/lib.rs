//! A hierarchical actor runtime core: leaf nodes validate their wiring
//! through a constraint helper, and composite nodes (organelles) route
//! messages between their children while hiding their inner identities.
//!
//! The library holds the decisions of the runtime. Channels and the reactor
//! that carry impulses between tasks live around it.

pub mod handle;
pub mod impulse;
pub mod organelle;
pub mod soma;

pub use handle::{Effector, Handle};
pub use impulse::{Error, Impulse};
pub use soma::{Constraint, Eukaryote, Nucleus, Soma, Synapse};
pub use organelle::{Organelle, OrganelleModel, Phase, Route, Step};
