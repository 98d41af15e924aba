//! Wire-adjacent chat messages.
use vstd::prelude::*;
use vstd::string::*;

use crate::text;

verus! {

/// Wire role of a chat message.
#[derive(Debug, Clone, Copy, PartialEq, Eq, Structural)]
pub enum ChatRole {
    System,
    User,
    Assistant,
    Tool,
}

/// One tool call carried by an assistant message.
#[derive(Debug, PartialEq)]
pub struct ToolCallRef {
    /// Provider-assigned call id, correlated with the tool result.
    pub id: String,
    pub name: String,
    /// Raw JSON arguments exactly as the model emitted them.
    pub arguments: String,
}

/// One inline image.
#[derive(Debug, PartialEq)]
pub struct ImageData {
    /// MIME type, e.g. `image/png`.
    pub mime: String,
    /// Base64-encoded image bytes (raw, no data-URL prefix).
    pub data: String,
    /// Where the image also lies on disk, if it does.
    pub path: Option<String>,
}

/// One chat message.
///
/// `tool_calls` belong to an assistant message and `tool_call_id` to a tool message.
#[derive(Debug, PartialEq)]
pub struct ChatMessage {
    pub role: ChatRole,
    pub content: String,
    /// Inline images for vision-capable models.
    pub images: Vec<ImageData>,
    /// The model's chain of thought, where it is passed back.
    pub reasoning_content: Option<String>,
    pub tool_calls: Vec<ToolCallRef>,
    pub tool_call_id: Option<String>,
}

pub struct CallView {
    pub id: Seq<char>,
    pub name: Seq<char>,
    pub arguments: Seq<char>,
}

pub struct ImageView {
    pub mime: Seq<char>,
    pub data: Seq<char>,
    pub path: Option<Seq<char>>,
}

/// What a message says.
pub struct MessageView {
    pub role: ChatRole,
    pub content: Seq<char>,
    pub images: Seq<ImageView>,
    pub reasoning_content: Option<Seq<char>>,
    pub tool_calls: Seq<CallView>,
    pub tool_call_id: Option<Seq<char>>,
}

impl View for ToolCallRef {
    type V = CallView;

    open spec fn view(&self) -> CallView {
        CallView { id: self.id@, name: self.name@, arguments: self.arguments@ }
    }
}

impl View for ImageData {
    type V = ImageView;

    open spec fn view(&self) -> ImageView {
        ImageView { mime: self.mime@, data: self.data@, path: text::opt_view(self.path) }
    }
}

/// The views of a list of images.
pub open spec fn image_views(images: Seq<ImageData>) -> Seq<ImageView> {
    images.map_values(|image: ImageData| image@)
}

/// The views of a list of calls.
pub open spec fn call_views(calls: Seq<ToolCallRef>) -> Seq<CallView> {
    calls.map_values(|call: ToolCallRef| call@)
}

impl View for ChatMessage {
    type V = MessageView;

    open spec fn view(&self) -> MessageView {
        MessageView {
            role: self.role,
            content: self.content@,
            images: image_views(self.images@),
            reasoning_content: text::opt_view(self.reasoning_content),
            tool_calls: call_views(self.tool_calls@),
            tool_call_id: text::opt_view(self.tool_call_id),
        }
    }
}

/// The views of a list of messages.
pub open spec fn message_views(messages: Seq<ChatMessage>) -> Seq<MessageView> {
    messages.map_values(|message: ChatMessage| message@)
}

impl Clone for ToolCallRef {
    fn clone(&self) -> (copy: Self)
        ensures
            copy == *self,
    {
        ToolCallRef {
            id: self.id.clone(),
            name: self.name.clone(),
            arguments: self.arguments.clone(),
        }
    }
}

impl Clone for ImageData {
    fn clone(&self) -> (copy: Self)
        ensures
            copy == *self,
    {
        ImageData { mime: self.mime.clone(), data: self.data.clone(), path: self.path.clone() }
    }
}

impl Clone for ChatMessage {
    fn clone(&self) -> (copy: Self)
        ensures
            copy@ == self@,
    {
        let images = self.images.clone();
        let tool_calls = self.tool_calls.clone();
        assert(images@ =~= self.images@);
        assert(tool_calls@ =~= self.tool_calls@);
        ChatMessage {
            role: self.role,
            content: self.content.clone(),
            images,
            reasoning_content: self.reasoning_content.clone(),
            tool_calls,
            tool_call_id: self.tool_call_id.clone(),
        }
    }
}

/// A message with a role and a content and nothing else.
pub open spec fn plain_message(role: ChatRole, content: Seq<char>) -> MessageView {
    MessageView {
        role,
        content,
        images: Seq::empty(),
        reasoning_content: None,
        tool_calls: Seq::empty(),
        tool_call_id: None,
    }
}

/// The result of one tool call.
pub open spec fn tool_message(call_id: Seq<char>, content: Seq<char>) -> MessageView {
    MessageView { tool_call_id: Some(call_id), ..plain_message(ChatRole::Tool, content) }
}

impl ChatMessage {
    /// A message from the user.
    pub fn user(content: &str) -> (message: Self)
        ensures
            message@ == plain_message(ChatRole::User, content@),
    {
        let message = ChatMessage {
            role: ChatRole::User,
            content: content.to_owned(),
            images: Vec::new(),
            reasoning_content: None,
            tool_calls: Vec::new(),
            tool_call_id: None,
        };
        assert(message@.images =~= Seq::empty());
        assert(message@.tool_calls =~= Seq::empty());
        message
    }

    /// A message from the user that carries images.
    pub fn user_with_images(content: &str, images: Vec<ImageData>) -> (message: Self)
        ensures
            message@ == (MessageView {
                images: image_views(images@),
                ..plain_message(ChatRole::User, content@)
            }),
    {
        let mut message = ChatMessage::user(content);
        message.images = images;
        message
    }

    /// A message from the model.
    pub fn assistant(
        content: &str,
        reasoning_content: Option<String>,
        tool_calls: Vec<ToolCallRef>,
    ) -> (message: Self)
        ensures
            message@ == (MessageView {
                reasoning_content: text::opt_view(reasoning_content),
                tool_calls: call_views(tool_calls@),
                ..plain_message(ChatRole::Assistant, content@)
            }),
    {
        let mut message = ChatMessage::user(content);
        message.role = ChatRole::Assistant;
        message.reasoning_content = reasoning_content;
        message.tool_calls = tool_calls;
        message
    }

    /// The result of one tool call.
    pub fn tool_result(call_id: &str, content: &str) -> (message: Self)
        ensures
            message@ == tool_message(call_id@, content@),
    {
        let mut message = ChatMessage::user(content);
        message.role = ChatRole::Tool;
        message.tool_call_id = Some(call_id.to_owned());
        message
    }
}

} // verus!
