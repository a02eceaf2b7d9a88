pub mod error;
pub mod migration;
pub mod models;
pub mod statements;

pub use error::{DbError, InvalidData};
pub use models::{BranchByLeafRow, BranchRow, MessageRow, ShareRow, UserConversationRow};
