use chat_client::client::Client;
use chat_client::decoder::decode;
use chat_client::error::Error;
use chat_client::model::Attachment;
use chat_client::request::{Method, Payload};
use chat_client::send::DEFAULT_TIMEOUT;
use chat_client::transport::Service;

fn client() -> Client {
    let service = Service {
        origin: "https://chat.example".to_string(),
        timezone: "Europe/Paris".to_string(),
        model: "model-2".to_string(),
    };
    Client::new(service, "sessionKey=abc".to_string(), Ok(vec!["org-1".to_string()])).unwrap()
}

fn descriptor(id: &str, name: &str) -> Attachment {
    Attachment {
        id: id.to_string(),
        extracted_content: format!("content of {}", name),
        file_name: name.to_string(),
        file_size: 12,
        file_type: "text/plain".to_string(),
    }
}

fn upload_path(request: &chat_client::request::Request) -> String {
    match &request.payload {
        Payload::Document { file_path, .. } => file_path.clone(),
        other => panic!("unexpected payload {:?}", other),
    }
}

#[test]
fn message_without_attachments_is_owed_at_once() {
    let sending = client().send_message("conv-9", "Hello", Some(vec![]), None).unwrap();
    assert!(sending.pending().unwrap().is_none());
    let request = sending.append_request().unwrap();
    assert_eq!(request.method, Method::Post);
    assert_eq!(request.url, "https://chat.example/api/append_message");
    assert_eq!(request.timeout, Some(500));
    match request.payload {
        Payload::Message {
            prompt,
            timezone,
            model,
            organization_uuid,
            conversation_uuid,
            text,
            attachments,
        } => {
            assert_eq!(prompt, "Hello");
            assert_eq!(timezone, "Europe/Paris");
            assert_eq!(model, "model-2");
            assert_eq!(organization_uuid, "org-1");
            assert_eq!(conversation_uuid, "conv-9");
            assert_eq!(text, "Hello");
            assert!(attachments.is_empty());
        }
        other => panic!("unexpected payload {:?}", other),
    }
}

#[test]
fn message_without_a_list_of_attachments_is_owed_at_once() {
    let sending = client().send_message("conv-9", "Hello", None, None).unwrap();
    assert!(sending.paths.is_empty());
    assert!(sending.pending().unwrap().is_none());
    match sending.append_request().unwrap().payload {
        Payload::Message { attachments, .. } => assert!(attachments.is_empty()),
        other => panic!("unexpected payload {:?}", other),
    }
}

#[test]
fn default_deadline_is_five_hundred_seconds() {
    assert_eq!(DEFAULT_TIMEOUT, 500);
    let sending = client().send_message("c", "p", None, None).unwrap();
    assert_eq!(sending.timeout, 500);
}

#[test]
fn given_deadline_is_kept() {
    let sending = client().send_message("c", "p", None, Some(30)).unwrap();
    assert_eq!(sending.append_request().unwrap().timeout, Some(30));
}

#[test]
fn attachments_are_uploaded_in_the_given_order() {
    let mut sending =
        client().send_message("conv-9", "Read these", Some(vec!["a.txt", "b.pdf"]), None).unwrap();

    let first = sending.pending().unwrap().unwrap();
    assert_eq!(first.url, "https://chat.example/api/convert_document");
    assert_eq!(upload_path(&first), "a.txt");
    // Asking again changes nothing.
    assert_eq!(upload_path(&sending.pending().unwrap().unwrap()), "a.txt");
    assert!(sending.record(descriptor("id-a", "a.txt")));

    let second = sending.pending().unwrap().unwrap();
    assert_eq!(upload_path(&second), "b.pdf");
    match second.payload {
        Payload::Document { content_type, .. } => assert_eq!(content_type, "application/pdf"),
        other => panic!("unexpected payload {:?}", other),
    }
    assert!(sending.record(descriptor("id-b", "b.pdf")));

    assert!(sending.pending().unwrap().is_none());
    match sending.append_request().unwrap().payload {
        Payload::Message { attachments, .. } => {
            let ids: Vec<&str> = attachments.iter().map(|a| a.id.as_str()).collect();
            assert_eq!(ids, vec!["id-a", "id-b"]);
            assert_eq!(attachments[0].file_name, "a.txt");
            assert_eq!(attachments[1].extracted_content, "content of b.pdf");
        }
        other => panic!("unexpected payload {:?}", other),
    }
}

#[test]
fn message_is_refused_while_an_upload_is_due() {
    let mut sending = client().send_message("c", "p", Some(vec!["a.txt", "b.txt"]), None).unwrap();
    assert!(sending.record(descriptor("id-a", "a.txt")));
    assert_eq!(sending.append_request().err(), Some(Error::Upload));
    let untouched = client().send_message("c", "p", Some(vec!["a.txt"]), None).unwrap();
    assert_eq!(untouched.append_request().err(), Some(Error::Upload));
}

#[test]
fn descriptor_that_no_upload_asked_for_is_dropped() {
    let mut sending = client().send_message("c", "p", Some(vec!["a.txt"]), None).unwrap();
    assert!(sending.record(descriptor("id-a", "a.txt")));
    assert!(!sending.record(descriptor("id-x", "x.txt")));
    assert_eq!(sending.uploaded.len(), 1);
    match sending.append_request().unwrap().payload {
        Payload::Message { attachments, .. } => {
            assert_eq!(attachments.len(), 1);
            assert_eq!(attachments[0].id, "id-a");
        }
        other => panic!("unexpected payload {:?}", other),
    }
}

#[test]
fn two_sendings_of_one_client_keep_apart() {
    let shared = client();
    let mut one = shared.send_message("conv-1", "first", Some(vec!["a.txt"]), None).unwrap();
    let mut two = shared.send_message("conv-2", "second", Some(vec!["b.csv"]), Some(5)).unwrap();
    assert_eq!(upload_path(&two.pending().unwrap().unwrap()), "b.csv");
    assert!(one.record(descriptor("id-a", "a.txt")));
    assert_eq!(upload_path(&two.pending().unwrap().unwrap()), "b.csv");
    assert!(two.record(descriptor("id-b", "b.csv")));
    let request_one = one.append_request().unwrap();
    let request_two = two.append_request().unwrap();
    match (request_one.payload, request_two.payload) {
        (
            Payload::Message { conversation_uuid: c1, attachments: a1, text: t1, .. },
            Payload::Message { conversation_uuid: c2, attachments: a2, text: t2, .. },
        ) => {
            assert_eq!((c1.as_str(), t1.as_str(), a1[0].id.as_str()), ("conv-1", "first", "id-a"));
            assert_eq!((c2.as_str(), t2.as_str(), a2[0].id.as_str()), ("conv-2", "second", "id-b"));
        }
        other => panic!("unexpected payloads {:?}", other),
    }
    let answer_one = decode("data: {\"completion\":\"to the first\"}");
    let answer_two = decode("data: {\"completion\":\"to the second\"}");
    assert_eq!(answer_one, Ok("to the first".to_string()));
    assert_eq!(answer_two, Ok("to the second".to_string()));
    assert_eq!(shared.org_uuid, "org-1");
}
