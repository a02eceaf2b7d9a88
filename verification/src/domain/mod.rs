pub mod branch;
pub mod content;
pub mod conversation;
pub mod message;
pub mod permissions;
pub mod timestamp;

pub use branch::Branch;
pub use content::{
    ContentKind, ContentMetadata, ContentType, ImageBatchContent, ImageBatchItem, ImageContent,
    MetadataContent, TextContent, ToolCallContent, ToolResultContent,
};
pub use conversation::Conversation;
pub use message::{Message, MessageRole};
pub use permissions::{Permission, Share};
pub use timestamp::Timestamp;
