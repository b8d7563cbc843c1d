//! A non-fungible token registry with on-chain album metadata.
//!
//! The crate holds the registry as a plain value, [`Cw721MetadataContract`],
//! together with the operations on it. Every operation is a total function
//! from the current state, the block, the caller and a message to either a
//! new state with a response, or an error that leaves the state as it was.
//! The contracts are stated over the mathematical view of the state, which
//! the module `model` describes; the module `laws` proves what relates one
//! operation to another.
pub mod assoc;
pub mod entry;
pub mod error;
pub mod execute;
pub mod expiration;
pub mod laws;
pub mod metadata;
pub mod model;
pub mod msg;
pub mod ownership;
pub mod query;
pub mod response;
pub mod state;
pub mod text;
pub mod token;
pub mod validate;
pub mod wire;

pub use crate::entry::{execute, instantiate, query};
pub use crate::error::ContractError;
pub use crate::expiration::{BlockInfo, Env, Expiration, MessageInfo};
pub use crate::metadata::{Extension, Metadata};
pub use crate::msg::{ExecuteMsg, InstantiateMsg, QueryMsg, QueryResponse};
pub use crate::ownership::{Action, Ownership};
pub use crate::query::MinterResponse;
pub use crate::response::{Attribute, Notification, Response};
pub use crate::state::Cw721MetadataContract;
