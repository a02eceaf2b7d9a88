pub mod branch_service;
pub mod conversation_laws;
pub mod conversation_service;
pub mod fork_laws;
pub mod fork_service;
pub mod share_service;

pub use branch_service::BranchService;
pub use conversation_service::ConversationService;
pub use fork_service::ForkService;
pub use share_service::ShareService;
