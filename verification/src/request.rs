use crate::model::Attachment;
use crate::transport::{Transport, TransportView};
use vstd::prelude::*;

verus! {

/// The method of a request.
#[derive(Clone, Copy, Debug, PartialEq, Eq, Structural)]
pub enum Method {
    Get,
    Post,
    Delete,
}

/// What a request carries to the service.
#[derive(Debug)]
pub enum Payload {
    /// Nothing.
    Empty,
    /// A JSON object that proposes a new conversation.
    NewConversation { uuid: String, name: String },
    /// A JSON object that names the conversation to delete.
    Deletion { conversation_id: String },
    /// A JSON object that gives a conversation a new title.
    Rename { organization_uuid: String, conversation_uuid: String, title: String },
    /// A multipart form: the file at `file_path`, streamed under `file_name`
    /// with the media type `content_type`, and the organization as `orgUuid`.
    Document { file_path: String, file_name: String, content_type: String, organization_uuid: String },
    /// A JSON object that appends a message to a conversation.
    Message {
        prompt: String,
        timezone: String,
        model: String,
        organization_uuid: String,
        conversation_uuid: String,
        text: String,
        attachments: Vec<Attachment>,
    },
}

/// A payload as the contracts speak of it.
pub enum PayloadView {
    Empty,
    NewConversation { uuid: Seq<char>, name: Seq<char> },
    Deletion { conversation_id: Seq<char> },
    Rename { organization_uuid: Seq<char>, conversation_uuid: Seq<char>, title: Seq<char> },
    Document {
        file_path: Seq<char>,
        file_name: Seq<char>,
        content_type: Seq<char>,
        organization_uuid: Seq<char>,
    },
    Message {
        prompt: Seq<char>,
        timezone: Seq<char>,
        model: Seq<char>,
        organization_uuid: Seq<char>,
        conversation_uuid: Seq<char>,
        text: Seq<char>,
        attachments: Seq<Attachment>,
    },
}

impl View for Payload {
    type V = PayloadView;

    open spec fn view(&self) -> PayloadView {
        match *self {
            Payload::Empty => PayloadView::Empty,
            Payload::NewConversation { uuid, name } => PayloadView::NewConversation {
                uuid: uuid@,
                name: name@,
            },
            Payload::Deletion { conversation_id } => PayloadView::Deletion {
                conversation_id: conversation_id@,
            },
            Payload::Rename { organization_uuid, conversation_uuid, title } => PayloadView::Rename {
                organization_uuid: organization_uuid@,
                conversation_uuid: conversation_uuid@,
                title: title@,
            },
            Payload::Document {
                file_path,
                file_name,
                content_type,
                organization_uuid,
            } => PayloadView::Document {
                file_path: file_path@,
                file_name: file_name@,
                content_type: content_type@,
                organization_uuid: organization_uuid@,
            },
            Payload::Message {
                prompt,
                timezone,
                model,
                organization_uuid,
                conversation_uuid,
                text,
                attachments,
            } => PayloadView::Message {
                prompt: prompt@,
                timezone: timezone@,
                model: model@,
                organization_uuid: organization_uuid@,
                conversation_uuid: conversation_uuid@,
                text: text@,
                attachments: attachments@,
            },
        }
    }
}

/// One request to the service, for the caller to perform.
#[derive(Debug)]
pub struct Request {
    pub transport: Transport,
    pub method: Method,
    pub url: String,
    pub payload: Payload,
    /// The deadline in seconds, where the request has one.
    pub timeout: Option<u64>,
}

/// A request as the contracts speak of it.
pub struct RequestView {
    pub transport: TransportView,
    pub method: Method,
    pub url: Seq<char>,
    pub payload: PayloadView,
    pub timeout: Option<u64>,
}

impl View for Request {
    type V = RequestView;

    open spec fn view(&self) -> RequestView {
        RequestView {
            transport: self.transport@,
            method: self.method,
            url: self.url@,
            payload: self.payload@,
            timeout: self.timeout,
        }
    }
}

} // verus!
