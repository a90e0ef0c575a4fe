use crate::content_type::{extension_or_empty, file_type_of, get_content_type, lowercase, media_type};
use crate::error::Error;
use crate::model::Conversation;
use crate::request::{Method, Payload, PayloadView, Request, RequestView};
use crate::transport::{build_request, join, transport_for, transport_ready, Service};
use vstd::prelude::*;
use vstd::string::StringExecFns;

verus! {

/// A session with the service: the credential, and the organization that was
/// resolved for it once, when the client was made.
#[derive(Debug)]
pub struct Client {
    pub org_uuid: String,
    pub cookies: String,
    pub service: Service,
}

/// Where the organizations of a credential are listed.
pub open spec fn organizations_url(origin: Seq<char>) -> Seq<char> {
    origin + "/api/organizations"@
}

/// Where the conversations of an organization are listed and created.
pub open spec fn conversations_url(origin: Seq<char>, organization: Seq<char>) -> Seq<char> {
    origin + "/api/organizations/"@ + organization + "/chat_conversations"@
}

/// Where one conversation is read and deleted.
pub open spec fn conversation_url(
    origin: Seq<char>,
    organization: Seq<char>,
    conversation: Seq<char>,
) -> Seq<char> {
    conversations_url(origin, organization) + "/"@ + conversation
}

/// Where a conversation is renamed.
pub open spec fn rename_url(origin: Seq<char>) -> Seq<char> {
    origin + "/api/rename_chat"@
}

/// Where a document is uploaded.
pub open spec fn upload_url(origin: Seq<char>) -> Seq<char> {
    origin + "/api/convert_document"@
}

/// Where a message is appended to a conversation.
pub open spec fn append_url(origin: Seq<char>) -> Seq<char> {
    origin + "/api/append_message"@
}

/// The media type that is told for the file at a path.
pub open spec fn media_type_at(path: Seq<char>) -> Seq<char> {
    media_type(file_type_of(lowercase(extension_or_empty(path))))
}

/// The payload of the upload of the file at a path.
pub open spec fn document(organization: Seq<char>, path: Seq<char>) -> PayloadView {
    PayloadView::Document {
        file_path: path,
        file_name: path,
        content_type: media_type_at(path),
        organization_uuid: organization,
    }
}

/// What building a request gives: the request described, on the transport of
/// the session, or the error that the transport cannot be built.
pub open spec fn issued(
    origin: Seq<char>,
    cookie: Seq<char>,
    method: Method,
    url: Seq<char>,
    payload: PayloadView,
    timeout: Option<u64>,
) -> Result<RequestView, Error> {
    if transport_ready(origin, cookie) {
        Ok(
            RequestView {
                transport: transport_for(origin, cookie),
                method: method,
                url: url,
                payload: payload,
                timeout: timeout,
            },
        )
    } else {
        Err(Error::InvalidCredential)
    }
}

/// The outcome of building a request, as the contracts speak of it.
pub open spec fn request_view(r: Result<Request, Error>) -> Result<RequestView, Error> {
    match r {
        Ok(request) => Ok(request@),
        Err(e) => Err(e),
    }
}

/// A request that was built, or the error instead, as the request that is
/// due next.
pub open spec fn due(r: Result<RequestView, Error>) -> Result<Option<RequestView>, Error> {
    match r {
        Ok(request) => Ok(Some(request)),
        Err(e) => Err(e),
    }
}

/// The outcome of asking for the request that is due, as the contracts speak
/// of it.
pub open spec fn due_view(r: Result<Option<Request>, Error>) -> Result<Option<RequestView>, Error> {
    match r {
        Ok(Some(request)) => Ok(Some(request@)),
        Ok(None) => Ok(None),
        Err(e) => Err(e),
    }
}

/// The identifiers of the given conversations, in their order.
pub open spec fn uuids_of(conversations: Seq<Conversation>) -> Seq<Seq<char>> {
    Seq::new(conversations.len(), |i: int| conversations[i].uuid@)
}

/// What building the deletion of a conversation gives.
pub open spec fn deletion(
    origin: Seq<char>,
    cookie: Seq<char>,
    organization: Seq<char>,
    conversation: Seq<char>,
) -> Result<RequestView, Error> {
    issued(
        origin,
        cookie,
        Method::Delete,
        conversation_url(origin, organization, conversation),
        PayloadView::Deletion { conversation_id: conversation },
        None,
    )
}

/// The next step of deleting the conversations `uuids` one after the other,
/// once `done` deletions were performed and the latest of them ended as
/// `last`: the error of a failed deletion; else the deletion of the next
/// conversation, or nothing where none is left.
pub open spec fn reset_step(
    origin: Seq<char>,
    cookie: Seq<char>,
    organization: Seq<char>,
    uuids: Seq<Seq<char>>,
    done: int,
    last: Result<(), Error>,
) -> Result<Option<RequestView>, Error> {
    match last {
        Err(e) => Err(e),
        Ok(_) => if done >= uuids.len() {
            Ok(None)
        } else {
            due(deletion(origin, cookie, organization, uuids[done]))
        },
    }
}

/// What came of the deletion before the one at `i`: nothing yet for the
/// first.
pub open spec fn outcome_before(outcomes: Seq<Result<(), Error>>, i: int) -> Result<(), Error> {
    if i == 0 {
        Ok(())
    } else {
        outcomes[i - 1]
    }
}

/// A reset deletes the conversations in their order and stops at the first
/// deletion that fails. Where the deletions before the one at `k` succeed and
/// that one fails, the deletions up to it are asked for one by one, each of
/// the conversation whose turn it is; after it the run ends with its error,
/// whatever conversations are left.
pub proof fn law_reset_stops_at_the_first_failure(
    origin: Seq<char>,
    cookie: Seq<char>,
    organization: Seq<char>,
    uuids: Seq<Seq<char>>,
    outcomes: Seq<Result<(), Error>>,
    k: int,
)
    requires
        0 <= k < uuids.len(),
        k < outcomes.len(),
        forall|i: int| 0 <= i < k ==> (#[trigger] outcomes[i]) is Ok,
        outcomes[k] is Err,
    ensures
        forall|i: int|
            0 <= i <= k ==> #[trigger] reset_step(
                origin,
                cookie,
                organization,
                uuids,
                i,
                outcome_before(outcomes, i),
            ) == due(deletion(origin, cookie, organization, uuids[i])),
        forall|done: int|
            #[trigger] reset_step(origin, cookie, organization, uuids, done, outcomes[k]) == Err::<
                Option<RequestView>,
                Error,
            >(outcomes[k]->Err_0),
{
    assert forall|i: int| 0 <= i <= k implies #[trigger] reset_step(
        origin,
        cookie,
        organization,
        uuids,
        i,
        outcome_before(outcomes, i),
    ) == due(deletion(origin, cookie, organization, uuids[i])) by {
        if i > 0 {
            assert(outcomes[i - 1] is Ok);
        }
    }
}

/// A reset in which every deletion succeeds asks for the deletion of each
/// conversation in turn, and for nothing after the last.
pub proof fn law_reset_deletes_every_conversation(
    origin: Seq<char>,
    cookie: Seq<char>,
    organization: Seq<char>,
    uuids: Seq<Seq<char>>,
    i: int,
)
    requires
        0 <= i <= uuids.len(),
    ensures
        reset_step(origin, cookie, organization, uuids, i, Ok(())) == if i < uuids.len() {
            due(deletion(origin, cookie, organization, uuids[i]))
        } else {
            Ok::<Option<RequestView>, Error>(None)
        },
{
}

/// Builds one request on the transport of a session.
pub fn issue(
    service: &Service,
    cookie: &str,
    method: Method,
    url: String,
    payload: Payload,
    timeout: Option<u64>,
) -> (r: Result<Request, Error>)
    ensures
        request_view(r) == issued(service.origin@, cookie@, method, url@, payload@, timeout),
{
    match build_request(service, cookie) {
        Err(e) => Err(e),
        Ok(transport) => Ok(Request { transport, method, url, payload, timeout }),
    }
}

impl Client {
    /// The organization that a credential is bound to: the first that the
    /// service lists for it. A listing that was never asked for, because the
    /// credential cannot be sent as a header, fails with that error. Where
    /// the listing failed for any other reason, or names no organization, the
    /// credential does not authenticate.
    pub fn get_organization_id(organizations: Result<Vec<String>, Error>) -> (r: Result<
        String,
        Error,
    >)
        ensures
            match r {
                Ok(id) => organizations matches Ok(listed) && listed@.len() > 0 && id@
                    == listed@[0]@,
                Err(e) => match organizations {
                    Ok(listed) => listed@.len() == 0 && e == Error::Authentication,
                    Err(cause) => e == if cause == Error::InvalidCredential {
                        Error::InvalidCredential
                    } else {
                        Error::Authentication
                    },
                },
            },
    {
        match organizations {
            Ok(listed) => if listed.len() > 0 {
                Ok(listed[0].clone())
            } else {
                Err(Error::Authentication)
            },
            Err(Error::InvalidCredential) => Err(Error::InvalidCredential),
            Err(_) => Err(Error::Authentication),
        }
    }

    /// How a failed upload is reported: as a failure to read the file where
    /// that was the cause, as a failed upload for any other cause.
    pub fn upload_failure(cause: Error) -> (e: Error)
        ensures
            e == if cause == Error::Io {
                Error::Io
            } else {
                Error::Upload
            },
    {
        match cause {
            Error::Io => Error::Io,
            _ => Error::Upload,
        }
    }

    /// What came of a deletion: the service refuses one of a conversation it
    /// does not know.
    pub fn deleted(accepted: bool) -> (r: Result<(), Error>)
        ensures
            r == if accepted {
                Ok::<(), Error>(())
            } else {
                Err::<(), Error>(Error::NotFound)
            },
    {
        if accepted {
            Ok(())
        } else {
            Err(Error::NotFound)
        }
    }

    /// What came of a renaming: the service refuses a title it does not
    /// accept, an empty one for one.
    pub fn renamed(accepted: bool) -> (r: Result<(), Error>)
        ensures
            r == if accepted {
                Ok::<(), Error>(())
            } else {
                Err::<(), Error>(Error::Validation)
            },
    {
        if accepted {
            Ok(())
        } else {
            Err(Error::Validation)
        }
    }

    /// The request that lists the organizations of a credential.
    pub fn organizations_request(service: &Service, cookies: &str) -> (r: Result<Request, Error>)
        ensures
            request_view(r) == issued(
                service.origin@,
                cookies@,
                Method::Get,
                organizations_url(service.origin@),
                PayloadView::Empty,
                None,
            ),
    {
        let url = join(service.origin.as_str(), "/api/organizations");
        issue(service, cookies, Method::Get, url, Payload::Empty, None)
    }

    /// A client for a credential, bound to the first organization that the
    /// service listed for it. Fails where the credential cannot be sent as a
    /// header, and else as the resolving of the organization fails.
    pub fn new(service: Service, cookies: String, organizations: Result<Vec<String>, Error>) -> (r:
        Result<Client, Error>)
        ensures
            match r {
                Ok(client) => {
                    &&& transport_ready(service.origin@, cookies@)
                    &&& organizations matches Ok(listed)
                    &&& listed@.len() > 0
                    &&& client.org_uuid@ == listed@[0]@
                    &&& client.cookies == cookies
                    &&& client.service == service
                },
                Err(e) => if transport_ready(service.origin@, cookies@) {
                    match organizations {
                        Ok(listed) => listed@.len() == 0 && e == Error::Authentication,
                        Err(cause) => e == if cause == Error::InvalidCredential {
                            Error::InvalidCredential
                        } else {
                            Error::Authentication
                        },
                    }
                } else {
                    e == Error::InvalidCredential
                },
            },
    {
        match build_request(&service, cookies.as_str()) {
            Err(e) => Err(e),
            Ok(_) => match Client::get_organization_id(organizations) {
                Err(e) => Err(e),
                Ok(org_uuid) => Ok(Client { org_uuid, cookies, service }),
            },
        }
    }

    /// The address of the conversations of this client's organization.
    fn conversations(&self) -> (r: String)
        ensures
            r@ == conversations_url(self.service.origin@, self.org_uuid@),
    {
        let mut url = join(self.service.origin.as_str(), "/api/organizations/");
        url.append(self.org_uuid.as_str());
        url.append("/chat_conversations");
        url
    }

    /// The address of one conversation of this client's organization.
    fn conversation(&self, chat_uuid: &str) -> (r: String)
        ensures
            r@ == conversation_url(self.service.origin@, self.org_uuid@, chat_uuid@),
    {
        let mut url = self.conversations();
        url.append("/");
        url.append(chat_uuid);
        url
    }

    /// The request that creates a conversation. It proposes an identifier and
    /// an empty name; the service may answer with an identifier of its own.
    pub fn create_new_chat(&self, proposed_uuid: &str) -> (r: Result<Request, Error>)
        ensures
            request_view(r) == issued(
                self.service.origin@,
                self.cookies@,
                Method::Post,
                conversations_url(self.service.origin@, self.org_uuid@),
                PayloadView::NewConversation { uuid: proposed_uuid@, name: Seq::<char>::empty() },
                None,
            ),
    {
        let payload = Payload::NewConversation { uuid: proposed_uuid.to_owned(), name: String::new() };
        issue(
            &self.service,
            self.cookies.as_str(),
            Method::Post,
            self.conversations(),
            payload,
            None,
        )
    }

    /// The request that lists the conversations of the organization.
    pub fn list_all_conversations(&self) -> (r: Result<Request, Error>)
        ensures
            request_view(r) == issued(
                self.service.origin@,
                self.cookies@,
                Method::Get,
                conversations_url(self.service.origin@, self.org_uuid@),
                PayloadView::Empty,
                None,
            ),
    {
        issue(
            &self.service,
            self.cookies.as_str(),
            Method::Get,
            self.conversations(),
            Payload::Empty,
            None,
        )
    }

    /// The request that reads the messages of a conversation.
    pub fn chat_conversation_history(&self, chat_uuid: &str) -> (r: Result<Request, Error>)
        ensures
            request_view(r) == issued(
                self.service.origin@,
                self.cookies@,
                Method::Get,
                conversation_url(self.service.origin@, self.org_uuid@, chat_uuid@),
                PayloadView::Empty,
                None,
            ),
    {
        issue(
            &self.service,
            self.cookies.as_str(),
            Method::Get,
            self.conversation(chat_uuid),
            Payload::Empty,
            None,
        )
    }

    /// The request that deletes a conversation.
    pub fn delete_conversation(&self, chat_uuid: &str) -> (r: Result<Request, Error>)
        ensures
            request_view(r) == issued(
                self.service.origin@,
                self.cookies@,
                Method::Delete,
                conversation_url(self.service.origin@, self.org_uuid@, chat_uuid@),
                PayloadView::Deletion { conversation_id: chat_uuid@ },
                None,
            ),
    {
        let payload = Payload::Deletion { conversation_id: chat_uuid.to_owned() };
        issue(
            &self.service,
            self.cookies.as_str(),
            Method::Delete,
            self.conversation(chat_uuid),
            payload,
            None,
        )
    }

    /// The next step of deleting the given conversations one after the
    /// other, in their order. `done` is the number of deletions performed so
    /// far and `last` what came of the latest of them (`Ok` where none was
    /// performed yet). A failed deletion ends the run with its error, and no
    /// further deletion is asked for. Else the deletion of the conversation
    /// at `done` is due, or nothing once every conversation is deleted.
    pub fn reset_all(
        &self,
        conversations: &Vec<Conversation>,
        done: usize,
        last: Result<(), Error>,
    ) -> (r: Result<Option<Request>, Error>)
        ensures
            due_view(r) == reset_step(
                self.service.origin@,
                self.cookies@,
                self.org_uuid@,
                uuids_of(conversations@),
                done as int,
                last,
            ),
    {
        match last {
            Err(e) => Err(e),
            Ok(_) => if done >= conversations.len() {
                Ok(None)
            } else {
                match self.delete_conversation(conversations[done].uuid.as_str()) {
                    Err(e) => Err(e),
                    Ok(request) => Ok(Some(request)),
                }
            },
        }
    }

    /// The request that uploads the file at a path: the file itself, under
    /// its path as its name and with the media type of its extension, and the
    /// organization. The extension is told whatever its case: `.PDF` is a PDF
    /// as `.pdf` is.
    pub fn upload_attachment(&self, file_path: &str) -> (r: Result<Request, Error>)
        ensures
            request_view(r) == issued(
                self.service.origin@,
                self.cookies@,
                Method::Post,
                upload_url(self.service.origin@),
                document(self.org_uuid@, file_path@),
                None,
            ),
    {
        let payload = Payload::Document {
            file_path: file_path.to_owned(),
            file_name: file_path.to_owned(),
            content_type: get_content_type(file_path).mime().to_owned(),
            organization_uuid: self.org_uuid.clone(),
        };
        let url = join(self.service.origin.as_str(), "/api/convert_document");
        issue(&self.service, self.cookies.as_str(), Method::Post, url, payload, None)
    }

    /// The request that gives a conversation a new title. The title is sent
    /// as it is: the service decides whether it is acceptable.
    pub fn rename_chat(&self, chat_uuid: &str, title: &str) -> (r: Result<Request, Error>)
        ensures
            request_view(r) == issued(
                self.service.origin@,
                self.cookies@,
                Method::Post,
                rename_url(self.service.origin@),
                PayloadView::Rename {
                    organization_uuid: self.org_uuid@,
                    conversation_uuid: chat_uuid@,
                    title: title@,
                },
                None,
            ),
    {
        let payload = Payload::Rename {
            organization_uuid: self.org_uuid.clone(),
            conversation_uuid: chat_uuid.to_owned(),
            title: title.to_owned(),
        };
        let url = join(self.service.origin.as_str(), "/api/rename_chat");
        issue(&self.service, self.cookies.as_str(), Method::Post, url, payload, None)
    }
}

} // verus!
