//! The content of a message: a tagged union of six kinds.

use vstd::prelude::*;

use crate::utils::text::{clone_optional_text, text_eq};

verus! {

/// A JSON document of `serde_json`. The library carries such a value and
/// never looks inside.
#[verifier::external_type_specification]
#[verifier::external_body]
pub struct ExJsonValue(serde_json::Value);

/// `Clone` of `serde_json::Value` is the derived deep copy.
///
/// Trusted: the copy is the same document as the original.
pub assume_specification[ <serde_json::Value as Clone>::clone ](
    value: &serde_json::Value,
) -> (copy: serde_json::Value)
    ensures
        copy == *value,
;

#[derive(Debug, PartialEq)]
pub struct TextContent {
    pub text: String,
}

#[derive(Debug, PartialEq)]
pub struct ImageContent {
    pub image_url: String,
    pub thumbnail_url: Option<String>,
    pub width: Option<u32>,
    pub height: Option<u32>,
    pub mime_type: Option<String>,
    pub size_bytes: Option<u64>,
}

#[derive(Debug, PartialEq)]
pub struct ToolCallContent {
    pub tool_name: String,
    pub arguments: serde_json::Value,
    pub tool_call_id: String,
}

#[derive(Debug, PartialEq)]
pub struct ToolResultContent {
    pub tool_call_id: String,
    pub result: serde_json::Value,
    pub success: bool,
}

#[derive(Debug, PartialEq)]
pub struct ImageBatchContent {
    pub images: Vec<ImageBatchItem>,
}

#[derive(Debug, PartialEq)]
pub struct ImageBatchItem {
    pub image_url: String,
    pub prompt: Option<String>,
    pub model: Option<String>,
}

/// The content of a root message: what is known of the conversation itself.
#[derive(Debug, PartialEq)]
pub struct MetadataContent {
    pub title: String,
    pub description: Option<String>,
    pub is_public: bool,
    pub fork_from_conversation_id: Option<u128>,
    pub fork_from_message_id: Option<u128>,
}

#[derive(Debug, PartialEq)]
pub enum ContentType {
    Text(TextContent),
    Image(ImageContent),
    ToolCall(ToolCallContent),
    ToolResult(ToolResultContent),
    ImageBatch(ImageBatchContent),
    Metadata(MetadataContent),
}

/// Extra string-keyed facts that travel with a message.
pub type ContentMetadata = std::collections::HashMap<String, String>;

/// The six kinds of content, without their payload. A stored message keeps
/// the kind as a tag beside the serialized payload.
#[derive(Debug, Clone, Copy, PartialEq, Eq, Structural)]
pub enum ContentKind {
    Text,
    Image,
    ToolCall,
    ToolResult,
    ImageBatch,
    Metadata,
}

/// The metadata of a conversation with its strings as sequences of
/// characters.
pub struct MetadataView {
    pub title: Seq<char>,
    pub description: Option<Seq<char>>,
    pub is_public: bool,
    pub fork_from_conversation_id: Option<u128>,
    pub fork_from_message_id: Option<u128>,
}

impl View for MetadataContent {
    type V = MetadataView;

    open spec fn view(&self) -> MetadataView {
        MetadataView {
            title: self.title@,
            description: match self.description {
                Some(d) => Some(d@),
                None => None,
            },
            is_public: self.is_public,
            fork_from_conversation_id: self.fork_from_conversation_id,
            fork_from_message_id: self.fork_from_message_id,
        }
    }
}

/// A content value with its list of images as a sequence and its metadata
/// by their view.
pub enum ContentTypeView {
    Text(TextContent),
    Image(ImageContent),
    ToolCall(ToolCallContent),
    ToolResult(ToolResultContent),
    ImageBatch(Seq<ImageBatchItem>),
    Metadata(MetadataView),
}

impl ContentTypeView {
    pub open spec fn kind(self) -> ContentKind {
        match self {
            ContentTypeView::Text(_) => ContentKind::Text,
            ContentTypeView::Image(_) => ContentKind::Image,
            ContentTypeView::ToolCall(_) => ContentKind::ToolCall,
            ContentTypeView::ToolResult(_) => ContentKind::ToolResult,
            ContentTypeView::ImageBatch(_) => ContentKind::ImageBatch,
            ContentTypeView::Metadata(_) => ContentKind::Metadata,
        }
    }
}

impl View for ContentType {
    type V = ContentTypeView;

    open spec fn view(&self) -> ContentTypeView {
        match *self {
            ContentType::Text(c) => ContentTypeView::Text(c),
            ContentType::Image(c) => ContentTypeView::Image(c),
            ContentType::ToolCall(c) => ContentTypeView::ToolCall(c),
            ContentType::ToolResult(c) => ContentTypeView::ToolResult(c),
            ContentType::ImageBatch(c) => ContentTypeView::ImageBatch(c.images@),
            ContentType::Metadata(c) => ContentTypeView::Metadata(c@),
        }
    }
}

/// The tag under which a kind of content is stored.
pub open spec fn content_tag(kind: ContentKind) -> Seq<char> {
    match kind {
        ContentKind::Text => "text"@,
        ContentKind::Image => "image"@,
        ContentKind::ToolCall => "tool_call"@,
        ContentKind::ToolResult => "tool_result"@,
        ContentKind::ImageBatch => "image_batch"@,
        ContentKind::Metadata => "metadata"@,
    }
}

/// The kind that a stored tag stands for, if any.
pub open spec fn content_kind_of_tag(tag: Seq<char>) -> Option<ContentKind> {
    if tag == "text"@ {
        Some(ContentKind::Text)
    } else if tag == "image"@ {
        Some(ContentKind::Image)
    } else if tag == "tool_call"@ {
        Some(ContentKind::ToolCall)
    } else if tag == "tool_result"@ {
        Some(ContentKind::ToolResult)
    } else if tag == "image_batch"@ {
        Some(ContentKind::ImageBatch)
    } else if tag == "metadata"@ {
        Some(ContentKind::Metadata)
    } else {
        None
    }
}

impl ContentKind {
    pub fn as_str(&self) -> (tag: &'static str)
        ensures
            tag@ == content_tag(*self),
    {
        match self {
            ContentKind::Text => "text",
            ContentKind::Image => "image",
            ContentKind::ToolCall => "tool_call",
            ContentKind::ToolResult => "tool_result",
            ContentKind::ImageBatch => "image_batch",
            ContentKind::Metadata => "metadata",
        }
    }

    /// Reads a stored tag. An unknown tag gives `None`.
    pub fn parse(tag: &str) -> (kind: Option<Self>)
        ensures
            kind == content_kind_of_tag(tag@),
    {
        if text_eq(tag, "text") {
            Some(ContentKind::Text)
        } else if text_eq(tag, "image") {
            Some(ContentKind::Image)
        } else if text_eq(tag, "tool_call") {
            Some(ContentKind::ToolCall)
        } else if text_eq(tag, "tool_result") {
            Some(ContentKind::ToolResult)
        } else if text_eq(tag, "image_batch") {
            Some(ContentKind::ImageBatch)
        } else if text_eq(tag, "metadata") {
            Some(ContentKind::Metadata)
        } else {
            None
        }
    }
}

/// The six tags are pairwise different, so a kind is read back from its own
/// tag.
pub proof fn lemma_content_tag_round_trip(kind: ContentKind)
    ensures
        content_kind_of_tag(content_tag(kind)) == Some(kind),
{
    reveal_strlit("text");
    reveal_strlit("image");
    reveal_strlit("tool_call");
    reveal_strlit("tool_result");
    reveal_strlit("image_batch");
    reveal_strlit("metadata");
    assert("text"@.len() == 4);
    assert("image"@.len() == 5);
    assert("tool_call"@.len() == 9);
    assert("tool_result"@.len() == 11);
    assert("image_batch"@.len() == 11);
    assert("metadata"@.len() == 8);
    assert("tool_result"@[0] == 't');
    assert("image_batch"@[0] == 'i');
}

impl Clone for TextContent {
    fn clone(&self) -> (copy: Self)
        ensures
            copy == *self,
    {
        TextContent { text: self.text.clone() }
    }
}

impl Clone for ImageContent {
    fn clone(&self) -> (copy: Self)
        ensures
            copy == *self,
    {
        ImageContent {
            image_url: self.image_url.clone(),
            thumbnail_url: clone_optional_text(&self.thumbnail_url),
            width: self.width,
            height: self.height,
            mime_type: clone_optional_text(&self.mime_type),
            size_bytes: self.size_bytes,
        }
    }
}

impl Clone for ToolCallContent {
    fn clone(&self) -> (copy: Self)
        ensures
            copy == *self,
    {
        ToolCallContent {
            tool_name: self.tool_name.clone(),
            arguments: self.arguments.clone(),
            tool_call_id: self.tool_call_id.clone(),
        }
    }
}

impl Clone for ToolResultContent {
    fn clone(&self) -> (copy: Self)
        ensures
            copy == *self,
    {
        ToolResultContent {
            tool_call_id: self.tool_call_id.clone(),
            result: self.result.clone(),
            success: self.success,
        }
    }
}

impl Clone for ImageBatchItem {
    fn clone(&self) -> (copy: Self)
        ensures
            copy == *self,
    {
        ImageBatchItem {
            image_url: self.image_url.clone(),
            prompt: clone_optional_text(&self.prompt),
            model: clone_optional_text(&self.model),
        }
    }
}

impl Clone for ImageBatchContent {
    fn clone(&self) -> (copy: Self)
        ensures
            copy.images@ == self.images@,
    {
        let mut images: Vec<ImageBatchItem> = Vec::new();
        let mut i: usize = 0;
        while i < self.images.len()
            invariant
                i <= self.images.len(),
                images@ == self.images@.take(i as int),
            decreases self.images.len() - i,
        {
            images.push(self.images[i].clone());
            i = i + 1;
            assert(images@ =~= self.images@.take(i as int));
        }
        assert(self.images@.take(i as int) =~= self.images@);
        ImageBatchContent { images }
    }
}

impl Clone for MetadataContent {
    fn clone(&self) -> (copy: Self)
        ensures
            copy == *self,
    {
        MetadataContent {
            title: self.title.clone(),
            description: clone_optional_text(&self.description),
            is_public: self.is_public,
            fork_from_conversation_id: self.fork_from_conversation_id,
            fork_from_message_id: self.fork_from_message_id,
        }
    }
}

impl Clone for ContentType {
    fn clone(&self) -> (copy: Self)
        ensures
            copy@ == self@,
    {
        match self {
            ContentType::Text(c) => ContentType::Text(c.clone()),
            ContentType::Image(c) => ContentType::Image(c.clone()),
            ContentType::ToolCall(c) => ContentType::ToolCall(c.clone()),
            ContentType::ToolResult(c) => ContentType::ToolResult(c.clone()),
            ContentType::ImageBatch(c) => ContentType::ImageBatch(c.clone()),
            ContentType::Metadata(c) => ContentType::Metadata(c.clone()),
        }
    }
}

impl ContentType {
    /// The kind of this content.
    pub fn kind(&self) -> (kind: ContentKind)
        ensures
            kind == self@.kind(),
    {
        match self {
            ContentType::Text(_) => ContentKind::Text,
            ContentType::Image(_) => ContentKind::Image,
            ContentType::ToolCall(_) => ContentKind::ToolCall,
            ContentType::ToolResult(_) => ContentKind::ToolResult,
            ContentType::ImageBatch(_) => ContentKind::ImageBatch,
            ContentType::Metadata(_) => ContentKind::Metadata,
        }
    }

    /// The tag under which this content is stored.
    pub fn to_type_string(&self) -> (tag: &'static str)
        ensures
            tag@ == content_tag(self@.kind()),
    {
        self.kind().as_str()
    }
}

} // verus!
