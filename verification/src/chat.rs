//! Data model of the assistant conversation: message payloads sent to the
//! language-model API, tool declarations, and the structured response the
//! assistant is asked to produce.  The crate only carries these values;
//! building requests from them and serializing them is the caller's work.

use vstd::prelude::*;
use std::collections::HashMap;

verus! {

/// One block of a message: text, or an image by encoded source.
#[derive(Debug, Clone)]
pub enum MessageContent {
    Text { text: String },
    Image { source: ImageSource },
}

/// An image payload: its source kind, media type, and encoded data.
#[derive(Debug, Clone)]
pub struct ImageSource {
    pub source_type: String,
    pub media_type: String,
    pub data: String,
}

/// One conversation turn: who speaks, and the content blocks.
#[derive(Debug, Clone)]
pub struct Message {
    pub role: String,
    pub content: Vec<MessageContent>,
}

/// The declared input schema of a tool.
pub struct InputSchema {
    pub schema_type: String,
    pub properties: HashMap<String, InputSchemaProperty>,
    pub required: Vec<String>,
}

/// One property of a tool's input schema, possibly nested.
pub struct InputSchemaProperty {
    pub property_type: String,
    pub items: Option<Box<InputSchemaProperty>>,
    pub properties: Option<HashMap<String, InputSchemaProperty>>,
}

/// A tool offered to the assistant.
pub struct Tool {
    pub name: String,
    pub description: String,
    pub input_schema: InputSchema,
}

/// The structured answer the assistant is asked to produce.
pub struct AIResponse {
    pub thought_process: String,
    pub plan: Vec<String>,
    pub user_confirmation_required: bool,
    pub execution: Vec<PlatformSpecificStep>,
    pub response: String,
}

/// One step of a plan, spelled per target platform.
pub struct PlatformSpecificStep {
    pub windows: String,
    pub macos: String,
    pub linux: String,
}

} // verus!
