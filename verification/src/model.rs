use vstd::prelude::*;

verus! {

/// A conversation as the service lists it.
#[derive(Debug)]
pub struct Conversation {
    pub uuid: String,
    pub name: String,
    pub summary: String,
}

/// One message of a conversation's history.
#[derive(Debug)]
pub struct ChatMessage {
    pub uuid: String,
    pub attachments: Vec<Attachment>,
    pub sender: String,
    pub index: usize,
    pub text: String,
    pub chat_feedback: Option<String>,
}

/// What the service knows of an uploaded file. A message refers to its
/// attachments by these descriptors.
#[derive(Debug)]
pub struct Attachment {
    pub id: String,
    pub extracted_content: String,
    pub file_name: String,
    pub file_size: i64,
    pub file_type: String,
}

} // verus!
