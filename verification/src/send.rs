use crate::client::{
    append_url, document, due, due_view, issue, issued, request_view, upload_url, Client,
};
use crate::decoder::decoded;
use crate::error::Error;
use crate::model::Attachment;
use crate::request::{Method, Payload, PayloadView, Request, RequestView};
use crate::transport::{build_request, join, transport_ready, Service};
use vstd::prelude::*;

verus! {

/// The deadline of the message request, in seconds, where the caller names none.
pub const DEFAULT_TIMEOUT: u64 = 500;

/// The sending of one message: what is to be sent, the files that go with
/// it, and the descriptors of those uploaded so far. The files are uploaded
/// one at a time, in the order the caller gave them, before the message is
/// appended.
#[derive(Debug)]
pub struct SendMessage {
    pub client: Client,
    pub chat_uuid: String,
    pub prompt: String,
    pub paths: Vec<String>,
    pub uploaded: Vec<Attachment>,
    pub timeout: u64,
}

/// The sending of a message as the contracts speak of it.
pub struct SendView {
    pub origin: Seq<char>,
    pub cookie: Seq<char>,
    pub timezone: Seq<char>,
    pub model: Seq<char>,
    pub organization: Seq<char>,
    pub conversation: Seq<char>,
    pub prompt: Seq<char>,
    pub paths: Seq<Seq<char>>,
    pub uploaded: Seq<Attachment>,
    pub timeout: u64,
}

impl View for SendMessage {
    type V = SendView;

    open spec fn view(&self) -> SendView {
        SendView {
            origin: self.client.service.origin@,
            cookie: self.client.cookies@,
            timezone: self.client.service.timezone@,
            model: self.client.service.model@,
            organization: self.client.org_uuid@,
            conversation: self.chat_uuid@,
            prompt: self.prompt@,
            paths: Seq::new(self.paths@.len(), |i: int| self.paths@[i]@),
            uploaded: self.uploaded@,
            timeout: self.timeout,
        }
    }
}

impl SendView {
    /// Whether a file is still to be uploaded.
    pub open spec fn uploading(self) -> bool {
        self.uploaded.len() < self.paths.len()
    }

    /// The payload of the message, with the descriptors uploaded so far.
    pub open spec fn message(self) -> PayloadView {
        PayloadView::Message {
            prompt: self.prompt,
            timezone: self.timezone,
            model: self.model,
            organization_uuid: self.organization,
            conversation_uuid: self.conversation,
            text: self.prompt,
            attachments: self.uploaded,
        }
    }

    /// The upload that is due: that of the first file without a descriptor,
    /// or none where every file has one.
    pub open spec fn pending(self) -> Result<Option<RequestView>, Error> {
        if self.uploading() {
            match issued(
                self.origin,
                self.cookie,
                Method::Post,
                upload_url(self.origin),
                document(self.organization, self.paths[self.uploaded.len() as int]),
                None,
            ) {
                Ok(request) => Ok(Some(request)),
                Err(e) => Err(e),
            }
        } else if transport_ready(self.origin, self.cookie) {
            Ok(None)
        } else {
            Err(Error::InvalidCredential)
        }
    }

    /// The sending once the upload that was due has given `descriptor`.
    /// Where no upload was due, nothing changes.
    pub open spec fn record(self, descriptor: Attachment) -> SendView {
        if self.uploading() {
            SendView { uploaded: self.uploaded.push(descriptor), ..self }
        } else {
            self
        }
    }

    /// The sending once the uploads have given `descriptors`, one after the
    /// other.
    pub open spec fn after(self, descriptors: Seq<Attachment>) -> SendView
        decreases descriptors.len(),
    {
        if descriptors.len() == 0 {
            self
        } else {
            self.after(descriptors.drop_last()).record(descriptors.last())
        }
    }

    /// The request that appends the message. It is owed once every file has
    /// its descriptor, and not before.
    pub open spec fn append(self) -> Result<RequestView, Error> {
        if !transport_ready(self.origin, self.cookie) {
            Err(Error::InvalidCredential)
        } else if self.uploaded.len() != self.paths.len() {
            Err(Error::Upload)
        } else {
            issued(
                self.origin,
                self.cookie,
                Method::Post,
                append_url(self.origin),
                self.message(),
                Some(self.timeout),
            )
        }
    }
}

/// The sending at its start, before any upload.
pub open spec fn started(
    client: Client,
    chat_uuid: Seq<char>,
    prompt: Seq<char>,
    paths: Seq<Seq<char>>,
    timeout: Option<u64>,
) -> SendView {
    SendView {
        origin: client.service.origin@,
        cookie: client.cookies@,
        timezone: client.service.timezone@,
        model: client.service.model@,
        organization: client.org_uuid@,
        conversation: chat_uuid,
        prompt: prompt,
        paths: paths,
        uploaded: Seq::<Attachment>::empty(),
        timeout: match timeout {
            Some(seconds) => seconds,
            None => DEFAULT_TIMEOUT,
        },
    }
}

/// The paths that the caller gave, none where it gave no list.
pub open spec fn paths_of(attachments: Option<Vec<&str>>) -> Seq<Seq<char>> {
    match attachments {
        Some(paths) => Seq::new(paths@.len(), |i: int| paths@[i]@),
        None => Seq::<Seq<char>>::empty(),
    }
}

/// The descriptors that come in are kept in the order they came in, as long
/// as there are no more of them than files.
pub proof fn lemma_after(start: SendView, descriptors: Seq<Attachment>)
    requires
        start.uploaded.len() == 0,
        descriptors.len() <= start.paths.len(),
    ensures
        start.after(descriptors) == (SendView { uploaded: descriptors, ..start }),
    decreases descriptors.len(),
{
    if descriptors.len() == 0 {
        assert(start.uploaded =~= descriptors);
    } else {
        lemma_after(start, descriptors.drop_last());
        assert(descriptors.drop_last().push(descriptors.last()) =~= descriptors);
    }
}

/// The files are uploaded in the caller's order: once the first `k` uploads
/// have given their descriptors, the upload that is due is that of the path
/// at `k`, and the message is not to be appended yet.
pub proof fn law_uploads_follow_paths(
    client: Client,
    chat_uuid: Seq<char>,
    prompt: Seq<char>,
    paths: Seq<Seq<char>>,
    timeout: Option<u64>,
    descriptors: Seq<Attachment>,
    k: int,
)
    requires
        descriptors.len() == paths.len(),
        0 <= k < paths.len(),
    ensures
        started(client, chat_uuid, prompt, paths, timeout).after(descriptors.take(k)).pending()
            == due(
            issued(
                client.service.origin@,
                client.cookies@,
                Method::Post,
                upload_url(client.service.origin@),
                document(client.org_uuid@, paths[k]),
                None,
            ),
        ),
        started(client, chat_uuid, prompt, paths, timeout).after(descriptors.take(k)).append()
            is Err,
{
    lemma_after(started(client, chat_uuid, prompt, paths, timeout), descriptors.take(k));
}

/// Once every upload has given its descriptor, the message is owed, and it
/// carries the descriptors in the order of the paths they belong to.
pub proof fn law_message_carries_descriptors(
    client: Client,
    chat_uuid: Seq<char>,
    prompt: Seq<char>,
    paths: Seq<Seq<char>>,
    timeout: Option<u64>,
    descriptors: Seq<Attachment>,
)
    requires
        descriptors.len() == paths.len(),
    ensures
        started(client, chat_uuid, prompt, paths, timeout).after(descriptors).append() == issued(
            client.service.origin@,
            client.cookies@,
            Method::Post,
            append_url(client.service.origin@),
            PayloadView::Message {
                prompt: prompt,
                timezone: client.service.timezone@,
                model: client.service.model@,
                organization_uuid: client.org_uuid@,
                conversation_uuid: chat_uuid,
                text: prompt,
                attachments: descriptors,
            },
            Some(started(client, chat_uuid, prompt, paths, timeout).timeout),
        ),
        started(client, chat_uuid, prompt, paths, timeout).after(descriptors).pending()
            is Ok ==> started(client, chat_uuid, prompt, paths, timeout).after(
            descriptors,
        ).pending() == Ok::<Option<RequestView>, Error>(None),
{
    lemma_after(started(client, chat_uuid, prompt, paths, timeout), descriptors);
}

/// A message without attachments asks for no upload: its request is owed at
/// once and carries an empty list of attachments.
pub proof fn law_no_attachment_no_upload(
    client: Client,
    chat_uuid: Seq<char>,
    prompt: Seq<char>,
    timeout: Option<u64>,
)
    ensures
        !started(client, chat_uuid, prompt, Seq::<Seq<char>>::empty(), timeout).uploading(),
        !(started(client, chat_uuid, prompt, Seq::<Seq<char>>::empty(), timeout).pending()
            matches Ok(Some(_))),
        started(client, chat_uuid, prompt, Seq::<Seq<char>>::empty(), timeout).append() == issued(
            client.service.origin@,
            client.cookies@,
            Method::Post,
            append_url(client.service.origin@),
            PayloadView::Message {
                prompt: prompt,
                timezone: client.service.timezone@,
                model: client.service.model@,
                organization_uuid: client.org_uuid@,
                conversation_uuid: chat_uuid,
                text: prompt,
                attachments: Seq::<Attachment>::empty(),
            },
            Some(started(client, chat_uuid, prompt, Seq::<Seq<char>>::empty(), timeout).timeout),
        ),
{
}

/// One turn of two sendings that run side by side: a descriptor comes in for
/// the one or for the other.
pub enum Turn {
    First(Attachment),
    Second(Attachment),
}

/// The descriptors that came in for the first of two sendings, in the order
/// they came in.
pub open spec fn of_first(turns: Seq<Turn>) -> Seq<Attachment>
    decreases turns.len(),
{
    if turns.len() == 0 {
        Seq::<Attachment>::empty()
    } else {
        match turns.last() {
            Turn::First(descriptor) => of_first(turns.drop_last()).push(descriptor),
            Turn::Second(_) => of_first(turns.drop_last()),
        }
    }
}

/// The descriptors that came in for the second of two sendings, in the order
/// they came in.
pub open spec fn of_second(turns: Seq<Turn>) -> Seq<Attachment>
    decreases turns.len(),
{
    if turns.len() == 0 {
        Seq::<Attachment>::empty()
    } else {
        match turns.last() {
            Turn::First(_) => of_second(turns.drop_last()),
            Turn::Second(descriptor) => of_second(turns.drop_last()).push(descriptor),
        }
    }
}

/// Two sendings after the given turns, taken in whatever order they came.
pub open spec fn side_by_side(first: SendView, second: SendView, turns: Seq<Turn>) -> (
    SendView,
    SendView,
)
    decreases turns.len(),
{
    if turns.len() == 0 {
        (first, second)
    } else {
        let before = side_by_side(first, second, turns.drop_last());
        match turns.last() {
            Turn::First(descriptor) => (before.0.record(descriptor), before.1),
            Turn::Second(descriptor) => (before.0, before.1.record(descriptor)),
        }
    }
}

/// What a sending comes to once the service has answered the message with
/// `body`: the answer in the body, or the error for which the message was
/// never sent.
pub open spec fn outcome(sending: SendView, body: Seq<char>) -> Result<Seq<char>, Error> {
    match sending.append() {
        Ok(_) => decoded(body),
        Err(e) => Err(e),
    }
}

/// A descriptor more leaves a sending as recording it does.
pub proof fn lemma_after_push(start: SendView, descriptors: Seq<Attachment>, next: Attachment)
    ensures
        start.after(descriptors.push(next)) == start.after(descriptors).record(next),
{
    assert(descriptors.push(next).drop_last() == descriptors);
}

/// Two sendings that run side by side do not touch each other. However
/// their turns interleave, each ends as it does when it runs alone with the
/// descriptors that came in for it: it asks for the same uploads, sends the
/// same message, and its answer is the answer in its own body.
pub proof fn law_sendings_run_apart(
    first: SendView,
    second: SendView,
    turns: Seq<Turn>,
    first_body: Seq<char>,
    second_body: Seq<char>,
)
    ensures
        side_by_side(first, second, turns) == (
            first.after(of_first(turns)),
            second.after(of_second(turns)),
        ),
        outcome(side_by_side(first, second, turns).0, first_body) == outcome(
            first.after(of_first(turns)),
            first_body,
        ),
        outcome(side_by_side(first, second, turns).1, second_body) == outcome(
            second.after(of_second(turns)),
            second_body,
        ),
    decreases turns.len(),
{
    if turns.len() > 0 {
        let before = turns.drop_last();
        law_sendings_run_apart(first, second, before, first_body, second_body);
        match turns.last() {
            Turn::First(descriptor) => {
                lemma_after_push(first, of_first(before), descriptor);
            },
            Turn::Second(descriptor) => {
                lemma_after_push(second, of_second(before), descriptor);
            },
        }
    }
}

/// A copy of a service's configuration.
fn copy_service(service: &Service) -> (r: Service)
    ensures
        r == *service,
{
    Service {
        origin: service.origin.clone(),
        timezone: service.timezone.clone(),
        model: service.model.clone(),
    }
}

/// A copy of a client.
fn copy_client(client: &Client) -> (r: Client)
    ensures
        r == *client,
{
    Client {
        org_uuid: client.org_uuid.clone(),
        cookies: client.cookies.clone(),
        service: copy_service(&client.service),
    }
}

impl Client {
    /// Starts the sending of a message to a conversation, with the files at
    /// the given paths as its attachments. Nothing is uploaded yet. The
    /// deadline of the message request is `timeout` seconds, 500 where none
    /// is given.
    pub fn send_message(
        &self,
        chat_uuid: &str,
        prompt: &str,
        attachments: Option<Vec<&str>>,
        timeout: Option<u64>,
    ) -> (r: Result<SendMessage, Error>)
        ensures
            match r {
                Ok(sending) => transport_ready(self.service.origin@, self.cookies@) && sending@
                    == started(*self, chat_uuid@, prompt@, paths_of(attachments), timeout),
                Err(e) => !transport_ready(self.service.origin@, self.cookies@) && e
                    == Error::InvalidCredential,
            },
    {
        if build_request(&self.service, self.cookies.as_str()).is_err() {
            return Err(Error::InvalidCredential);
        }
        let mut paths: Vec<String> = Vec::new();
        match &attachments {
            Some(given) => {
                let mut i: usize = 0;
                while i < given.len()
                    invariant
                        i <= given.len(),
                        paths@.len() == i,
                        forall|k: int| 0 <= k < i ==> (#[trigger] paths@[k])@ == given@[k]@,
                    decreases given.len() - i,
                {
                    paths.push(given[i].to_owned());
                    i += 1;
                }
            },
            None => {},
        }
        let sending = SendMessage {
            client: copy_client(self),
            chat_uuid: chat_uuid.to_owned(),
            prompt: prompt.to_owned(),
            paths,
            uploaded: Vec::new(),
            timeout: match timeout {
                Some(seconds) => seconds,
                None => DEFAULT_TIMEOUT,
            },
        };
        assert(sending@.paths =~= paths_of(attachments));
        Ok(sending)
    }
}

impl SendMessage {
    /// The upload that is due now: that of the first file that has no
    /// descriptor yet, or none once every file has one.
    pub fn pending(&self) -> (r: Result<Option<Request>, Error>)
        ensures
            due_view(r) == self@.pending(),
    {
        if self.uploaded.len() < self.paths.len() {
            match self.client.upload_attachment(self.paths[self.uploaded.len()].as_str()) {
                Ok(request) => Ok(Some(request)),
                Err(e) => Err(e),
            }
        } else if build_request(
            &self.client.service,
            self.client.cookies.as_str(),
        ).is_err() {
            Err(Error::InvalidCredential)
        } else {
            Ok(None)
        }
    }

    /// Takes the descriptor that the upload that was due has given. Where no
    /// upload was due, the descriptor is dropped and nothing changes.
    pub fn record(&mut self, descriptor: Attachment) -> (recorded: bool)
        ensures
            recorded == old(self)@.uploading(),
            final(self)@ == old(self)@.record(descriptor),
    {
        if self.uploaded.len() < self.paths.len() {
            self.uploaded.push(descriptor);
            true
        } else {
            false
        }
    }

    /// The request that appends the message, with the descriptors of its
    /// attachments in the order of their paths. It is refused while a file
    /// has no descriptor.
    pub fn append_request(self) -> (r: Result<Request, Error>)
        ensures
            request_view(r) == self@.append(),
    {
        if build_request(
            &self.client.service,
            self.client.cookies.as_str(),
        ).is_err() {
            return Err(Error::InvalidCredential);
        }
        if self.uploaded.len() != self.paths.len() {
            return Err(Error::Upload);
        }
        let url = join(self.client.service.origin.as_str(), "/api/append_message");
        let payload = Payload::Message {
            prompt: self.prompt.clone(),
            timezone: self.client.service.timezone.clone(),
            model: self.client.service.model.clone(),
            organization_uuid: self.client.org_uuid.clone(),
            conversation_uuid: self.chat_uuid,
            text: self.prompt,
            attachments: self.uploaded,
        };
        issue(
            &self.client.service,
            self.client.cookies.as_str(),
            Method::Post,
            url,
            payload,
            Some(self.timeout),
        )
    }
}

} // verus!
