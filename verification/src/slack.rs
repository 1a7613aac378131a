//! The building blocks of a chat notification message, and the text-level
//! pieces shared by the messages built from records.

use vstd::prelude::*;

verus! {

/// How a piece of message text is rendered.
#[derive(Clone, Copy, Debug, PartialEq, Eq, Structural)]
pub enum MessageType {
    Markdown,
    PlainText,
}

/// What role a block plays in the message layout.
#[derive(Clone, Copy, Debug, PartialEq, Eq, Structural)]
pub enum MessageBlockType {
    Section,
    Context,
}

/// One piece of text inside a block.
#[derive(Clone, Debug, PartialEq, Eq)]
pub struct MessageBlockText {
    pub text_type: MessageType,
    pub text: String,
}

/// One block of the message: a section with its own text, or a context
/// line of smaller text elements.
#[derive(Clone, Debug, PartialEq, Eq)]
pub struct MessageBlock {
    pub block_type: MessageBlockType,
    pub text: Option<MessageBlockText>,
    pub elements: Vec<MessageBlockText>,
}

/// A whole notification message.
#[derive(Clone, Debug, PartialEq, Eq)]
pub struct FormattedMessage {
    pub channel: Option<String>,
    pub blocks: Vec<MessageBlock>,
}

/// The whole observable shape of a section block holding the given
/// markdown text: every field of the block is pinned, so two blocks
/// satisfying this render the same wire bytes.
pub open spec fn is_section_block(b: MessageBlock, text: Seq<char>) -> bool {
    &&& b.block_type == MessageBlockType::Section
    &&& b.text is Some
    &&& b.text.unwrap().text_type == MessageType::Markdown
    &&& b.text.unwrap().text@ == text
    &&& b.elements@.len() == 0
}

/// The whole observable shape of a context block holding one markdown
/// text element: every field of the block is pinned.
pub open spec fn is_context_block(b: MessageBlock, text: Seq<char>) -> bool {
    &&& b.block_type == MessageBlockType::Context
    &&& b.text is None
    &&& b.elements@.len() == 1
    &&& b.elements@[0].text_type == MessageType::Markdown
    &&& b.elements@[0].text@ == text
}

/// A section block holding one markdown text.
pub fn section_block(text: String) -> (r: MessageBlock)
    ensures
        is_section_block(r, text@),
{
    MessageBlock {
        block_type: MessageBlockType::Section,
        text: Some(MessageBlockText { text_type: MessageType::Markdown, text }),
        elements: Vec::new(),
    }
}

/// A context block holding one markdown text element.
pub fn context_block(text: String) -> (r: MessageBlock)
    ensures
        is_context_block(r, text@),
{
    let mut elements: Vec<MessageBlockText> = Vec::new();
    elements.push(MessageBlockText { text_type: MessageType::Markdown, text });
    MessageBlock { block_type: MessageBlockType::Context, text: None, elements }
}

} // verus!
