use chat_client::client::Client;
use chat_client::error::Error;
use chat_client::model::Conversation;
use chat_client::request::{Method, Payload, Request};
use chat_client::transport::{build_request, Service, USER_AGENT};

fn service() -> Service {
    Service {
        origin: "https://chat.example".to_string(),
        timezone: "Europe/Paris".to_string(),
        model: "model-2".to_string(),
    }
}

fn client() -> Client {
    Client::new(service(), "sessionKey=abc".to_string(), Ok(vec!["org-1".to_string()])).unwrap()
}

fn header<'a>(request: &'a Request, name: &str) -> Option<&'a str> {
    request.transport.headers.iter().find(|h| h.name == name).map(|h| h.value.as_str())
}

#[test]
fn transport_carries_the_fixed_headers_and_the_cookie() {
    let transport = build_request(&service(), "sessionKey=abc").unwrap();
    let pairs: Vec<(&str, &str)> =
        transport.headers.iter().map(|h| (h.name.as_str(), h.value.as_str())).collect();
    assert_eq!(
        pairs,
        vec![
            ("accept", "application/json"),
            ("origin", "https://chat.example"),
            ("referer", "https://chat.example/chats/"),
            ("connection", "keep-alive"),
            ("user-agent", USER_AGENT),
            ("cookie", "sessionKey=abc"),
        ]
    );
    assert_eq!(transport.user_agent, USER_AGENT);
    assert!(transport.https_only);
    assert!(transport.gzip);
}

#[test]
fn cookie_with_a_control_character_is_refused() {
    assert_eq!(build_request(&service(), "a\nb").err(), Some(Error::InvalidCredential));
    assert_eq!(build_request(&service(), "a\u{7f}").err(), Some(Error::InvalidCredential));
    assert_eq!(build_request(&service(), "\u{0}").err(), Some(Error::InvalidCredential));
}

#[test]
fn cookie_with_a_tab_or_text_beyond_ascii_is_accepted() {
    assert!(build_request(&service(), "a\tb").is_ok());
    assert!(build_request(&service(), "cl\u{e9}=\u{8d8a}").is_ok());
    assert!(build_request(&service(), "").is_ok());
}

#[test]
fn origin_that_is_no_header_value_is_refused() {
    let broken = Service { origin: "https://chat.example\r\n".to_string(), ..service() };
    assert_eq!(build_request(&broken, "sessionKey=abc").err(), Some(Error::InvalidCredential));
}

#[test]
fn first_organization_is_taken() {
    let listed = Ok(vec!["org-1".to_string(), "org-2".to_string()]);
    assert_eq!(Client::get_organization_id(listed), Ok("org-1".to_string()));
}

#[test]
fn no_organization_does_not_authenticate() {
    assert_eq!(Client::get_organization_id(Ok(vec![])), Err(Error::Authentication));
}

#[test]
fn listing_that_the_cookie_forbade_keeps_its_error() {
    let refused = Client::organizations_request(&service(), "a\nb").map(|_| Vec::new());
    assert_eq!(refused.as_ref().err(), Some(&Error::InvalidCredential));
    assert_eq!(Client::get_organization_id(refused), Err(Error::InvalidCredential));
    assert_eq!(
        Client::get_organization_id(Err(Error::InvalidCredential)),
        Err(Error::InvalidCredential)
    );
}

#[test]
fn other_failures_of_the_listing_do_not_authenticate() {
    for cause in [
        Error::Authentication,
        Error::Network,
        Error::NotFound,
        Error::Validation,
        Error::Upload,
        Error::Decode,
        Error::Timeout,
        Error::Io,
    ] {
        assert_eq!(Client::get_organization_id(Err(cause)), Err(Error::Authentication));
    }
}

#[test]
fn organizations_are_listed_with_a_get() {
    let request = Client::organizations_request(&service(), "sessionKey=abc").unwrap();
    assert_eq!(request.method, Method::Get);
    assert_eq!(request.url, "https://chat.example/api/organizations");
    assert!(matches!(request.payload, Payload::Empty));
    assert_eq!(request.timeout, None);
    assert_eq!(header(&request, "cookie"), Some("sessionKey=abc"));
    assert_eq!(
        Client::organizations_request(&service(), "bad\ncookie").err(),
        Some(Error::InvalidCredential)
    );
}

#[test]
fn new_client_is_bound_to_the_first_organization() {
    let made = client();
    assert_eq!(made.org_uuid, "org-1");
    assert_eq!(made.cookies, "sessionKey=abc");
    assert_eq!(made.service.origin, "https://chat.example");
}

#[test]
fn new_client_reports_failure_as_an_error() {
    let none = Client::new(service(), "sessionKey=abc".to_string(), Ok(vec![]));
    assert_eq!(none.err(), Some(Error::Authentication));
    let failed = Client::new(service(), "sessionKey=abc".to_string(), Err(Error::Network));
    assert_eq!(failed.err(), Some(Error::Authentication));
    let refused =
        Client::new(service(), "sessionKey=abc".to_string(), Err(Error::InvalidCredential));
    assert_eq!(refused.err(), Some(Error::InvalidCredential));
}

#[test]
fn bad_cookie_is_reported_before_the_organization() {
    let made = Client::new(service(), "bad\u{1}".to_string(), Ok(vec![]));
    assert_eq!(made.err(), Some(Error::InvalidCredential));
    let listed = Client::new(service(), "bad\u{1}".to_string(), Ok(vec!["org-1".to_string()]));
    assert_eq!(listed.err(), Some(Error::InvalidCredential));
}

#[test]
fn conversation_is_created_with_a_post() {
    let request = client().create_new_chat("11111111-2222-3333-4444-555555555555").unwrap();
    assert_eq!(request.method, Method::Post);
    assert_eq!(request.url, "https://chat.example/api/organizations/org-1/chat_conversations");
    match request.payload {
        Payload::NewConversation { uuid, name } => {
            assert_eq!(uuid, "11111111-2222-3333-4444-555555555555");
            assert_eq!(name, "");
        }
        other => panic!("unexpected payload {:?}", other),
    }
    assert_eq!(request.timeout, None);
}

#[test]
fn conversations_are_listed_with_a_get() {
    let request = client().list_all_conversations().unwrap();
    assert_eq!(request.method, Method::Get);
    assert_eq!(request.url, "https://chat.example/api/organizations/org-1/chat_conversations");
    assert!(matches!(request.payload, Payload::Empty));
}

#[test]
fn history_is_read_with_a_get() {
    let request = client().chat_conversation_history("conv-9").unwrap();
    assert_eq!(request.method, Method::Get);
    assert_eq!(
        request.url,
        "https://chat.example/api/organizations/org-1/chat_conversations/conv-9"
    );
    assert!(matches!(request.payload, Payload::Empty));
}

#[test]
fn conversation_is_deleted_with_a_delete() {
    let request = client().delete_conversation("conv-9").unwrap();
    assert_eq!(request.method, Method::Delete);
    assert_eq!(
        request.url,
        "https://chat.example/api/organizations/org-1/chat_conversations/conv-9"
    );
    match request.payload {
        Payload::Deletion { conversation_id } => assert_eq!(conversation_id, "conv-9"),
        other => panic!("unexpected payload {:?}", other),
    }
}

#[test]
fn conversation_is_renamed_with_a_post() {
    let request = client().rename_chat("conv-9", "A title").unwrap();
    assert_eq!(request.method, Method::Post);
    assert_eq!(request.url, "https://chat.example/api/rename_chat");
    match request.payload {
        Payload::Rename { organization_uuid, conversation_uuid, title } => {
            assert_eq!(organization_uuid, "org-1");
            assert_eq!(conversation_uuid, "conv-9");
            assert_eq!(title, "A title");
        }
        other => panic!("unexpected payload {:?}", other),
    }
}

#[test]
fn empty_title_is_sent_as_it_is() {
    let request = client().rename_chat("conv-9", "").unwrap();
    match request.payload {
        Payload::Rename { title, .. } => assert_eq!(title, ""),
        other => panic!("unexpected payload {:?}", other),
    }
    assert_eq!(Client::renamed(false), Err(Error::Validation));
    assert_eq!(Client::renamed(true), Ok(()));
}

#[test]
fn refused_deletion_is_not_found() {
    assert_eq!(Client::deleted(false), Err(Error::NotFound));
    assert_eq!(Client::deleted(true), Ok(()));
}

#[test]
fn document_is_uploaded_with_its_media_type() {
    let request = client().upload_attachment("tmp/Report.PDF").unwrap();
    assert_eq!(request.method, Method::Post);
    assert_eq!(request.url, "https://chat.example/api/convert_document");
    match request.payload {
        Payload::Document { file_path, file_name, content_type, organization_uuid } => {
            assert_eq!(file_path, "tmp/Report.PDF");
            assert_eq!(file_name, "tmp/Report.PDF");
            assert_eq!(content_type, "application/pdf");
            assert_eq!(organization_uuid, "org-1");
        }
        other => panic!("unexpected payload {:?}", other),
    }
}

#[test]
fn document_of_unknown_kind_is_a_byte_stream() {
    for (path, expected) in [
        ("a.txt", "text/plain"),
        ("a.csv", "text/csv"),
        ("a.docx", "application/octet-stream"),
        ("no_extension", "application/octet-stream"),
    ] {
        match client().upload_attachment(path).unwrap().payload {
            Payload::Document { content_type, .. } => assert_eq!(content_type, expected),
            other => panic!("unexpected payload {:?}", other),
        }
    }
}

#[test]
fn failed_upload_is_an_upload_error_unless_the_file_was_unreadable() {
    assert_eq!(Client::upload_failure(Error::Io), Error::Io);
    assert_eq!(Client::upload_failure(Error::Network), Error::Upload);
    assert_eq!(Client::upload_failure(Error::Timeout), Error::Upload);
    assert_eq!(Client::upload_failure(Error::Decode), Error::Upload);
    assert_eq!(Client::upload_failure(Error::Upload), Error::Upload);
}

fn conversations(ids: &[&str]) -> Vec<Conversation> {
    ids.iter()
        .map(|id| Conversation { uuid: id.to_string(), name: String::new(), summary: String::new() })
        .collect()
}

#[test]
fn reset_deletes_every_conversation_in_order() {
    let listed = conversations(&["c1", "c2", "c3"]);
    let made = client();
    let mut urls: Vec<String> = Vec::new();
    let mut done = 0;
    while let Some(request) = made.reset_all(&listed, done, Ok(())).unwrap() {
        assert_eq!(request.method, Method::Delete);
        match &request.payload {
            Payload::Deletion { conversation_id } => assert_eq!(conversation_id, &listed[done].uuid),
            other => panic!("unexpected payload {:?}", other),
        }
        urls.push(request.url);
        done += 1;
    }
    assert_eq!(done, 3);
    assert_eq!(
        urls,
        vec![
            "https://chat.example/api/organizations/org-1/chat_conversations/c1",
            "https://chat.example/api/organizations/org-1/chat_conversations/c2",
            "https://chat.example/api/organizations/org-1/chat_conversations/c3",
        ]
    );
}

#[test]
fn reset_stops_at_the_first_failed_deletion() {
    let listed = conversations(&["c1", "c2", "c3"]);
    let made = client();
    let outcomes = [Ok(()), Err(Error::NotFound), Ok(())];
    let mut asked: Vec<String> = Vec::new();
    let mut last = Ok(());
    let mut done = 0;
    let ended = loop {
        match made.reset_all(&listed, done, last) {
            Ok(Some(request)) => {
                asked.push(request.url);
                last = outcomes[done];
                done += 1;
            }
            Ok(None) => break Ok(()),
            Err(e) => break Err(e),
        }
    };
    assert_eq!(ended, Err(Error::NotFound));
    assert_eq!(
        asked,
        vec![
            "https://chat.example/api/organizations/org-1/chat_conversations/c1",
            "https://chat.example/api/organizations/org-1/chat_conversations/c2",
        ]
    );
}

#[test]
fn reset_hands_on_the_error_of_the_last_deletion() {
    let listed = conversations(&["c1"]);
    assert_eq!(client().reset_all(&listed, 1, Err(Error::Network)).err(), Some(Error::Network));
    assert_eq!(client().reset_all(&listed, 0, Err(Error::Timeout)).err(), Some(Error::Timeout));
    assert!(client().reset_all(&listed, 1, Ok(())).unwrap().is_none());
    assert!(client().reset_all(&listed, 7, Ok(())).unwrap().is_none());
}

#[test]
fn reset_of_no_conversation_deletes_nothing() {
    assert!(client().reset_all(&vec![], 0, Ok(())).unwrap().is_none());
}

#[test]
fn requests_of_a_client_with_a_bad_cookie_are_refused() {
    let mut broken = client();
    broken.cookies = "bad\ncookie".to_string();
    assert_eq!(broken.list_all_conversations().err(), Some(Error::InvalidCredential));
    assert_eq!(broken.create_new_chat("u").err(), Some(Error::InvalidCredential));
    assert_eq!(broken.chat_conversation_history("c").err(), Some(Error::InvalidCredential));
    assert_eq!(broken.delete_conversation("c").err(), Some(Error::InvalidCredential));
    assert_eq!(broken.rename_chat("c", "t").err(), Some(Error::InvalidCredential));
    assert_eq!(broken.upload_attachment("a.pdf").err(), Some(Error::InvalidCredential));
    assert_eq!(
        broken.reset_all(&conversations(&["c1"]), 0, Ok(())).err(),
        Some(Error::InvalidCredential)
    );
    assert_eq!(broken.send_message("c", "p", None, None).err(), Some(Error::InvalidCredential));
}
