use vstd::prelude::*;

verus! {

/// A participant of a roleplay header: a name and the full W++ text about it.
#[derive(Debug, Clone)]
pub struct HeaderItem {
    pub name: String,
    pub full: String,
}

/// The header of a roleplay prompt: the template it goes into, an optional
/// system text, the characters, the user, and an optional scenario. Rendering
/// it is left to the template engine of the caller.
#[derive(Debug, Clone)]
pub struct Header {
    pub template: String,
    pub system: Option<String>,
    pub characters: Vec<HeaderItem>,
    pub user: Option<HeaderItem>,
    pub scenario: Option<String>,
}

/// What a chat prompt is rendered with.
#[derive(Debug, Clone, Default)]
pub struct ChatPromptContext {}

} // verus!
