use crate::error::Error;
use reqwest::header::{HeaderValue, InvalidHeaderValue};
use vstd::prelude::*;
use vstd::string::StringExecFns;
use vstd::utf8::{
    encode_scalar, encode_utf8, has_width_1_encoding, is_scalar, last_continuation_byte,
    leading_byte_width_1, leading_byte_width_2, leading_byte_width_3, leading_byte_width_4,
    second_last_continuation_byte, third_last_continuation_byte,
};

verus! {

/// `reqwest::header::HeaderValue`, a header value that passed validation.
#[verifier::external_type_specification]
#[verifier::external_body]
pub struct ExHeaderValue(HeaderValue);

/// `reqwest::header::InvalidHeaderValue`, the refusal of a header value.
#[verifier::external_type_specification]
#[verifier::external_body]
pub struct ExInvalidHeaderValue(InvalidHeaderValue);

/// The user agent that every request names.
pub const USER_AGENT: &'static str =
    "Mozilla/5.0 (X11; Linux x86_64) AppleWebKit/537.36 (KHTML, like Gecko) Chrome/117.0.0.0 Safari/537.36";

/// What is specific to the service: where it is reached, and the time zone
/// and the model that a message names.
#[derive(Debug)]
pub struct Service {
    pub origin: String,
    pub timezone: String,
    pub model: String,
}

/// One header of a request.
#[derive(Debug)]
pub struct Header {
    pub name: String,
    pub value: String,
}

/// How the service is to be reached: the headers that every request carries,
/// the user agent, and the connection policy.
#[derive(Debug)]
pub struct Transport {
    pub headers: Vec<Header>,
    pub user_agent: String,
    pub https_only: bool,
    pub gzip: bool,
}

/// A transport as the contracts speak of it.
pub struct TransportView {
    pub headers: Seq<(Seq<char>, Seq<char>)>,
    pub user_agent: Seq<char>,
    pub https_only: bool,
    pub gzip: bool,
}

impl View for Transport {
    type V = TransportView;

    open spec fn view(&self) -> TransportView {
        TransportView {
            headers: Seq::new(
                self.headers@.len(),
                |i: int| (self.headers@[i].name@, self.headers@[i].value@),
            ),
            user_agent: self.user_agent@,
            https_only: self.https_only,
            gzip: self.gzip,
        }
    }
}

/// Whether a byte may stand in a header value: no control character but
/// the tab.
pub open spec fn legal_header_byte(byte: u8) -> bool {
    byte >= 32 && byte != 127 || byte == 9
}

/// Whether every byte may stand in a header value.
pub open spec fn legal_header_bytes(bytes: Seq<u8>) -> bool {
    forall|i: int| 0 <= i < bytes.len() ==> legal_header_byte(#[trigger] bytes[i])
}

/// Whether a character may stand in a header value: no control character of
/// ASCII but the tab.
pub open spec fn legal_header_char(c: char) -> bool {
    (c as u32) >= 32 && (c as u32) != 127 || (c as u32) == 9
}

/// Whether a text is a legal header value: it holds no control character of
/// ASCII but the tab.
pub open spec fn legal_header_value(text: Seq<char>) -> bool {
    forall|i: int| 0 <= i < text.len() ==> legal_header_char(#[trigger] text[i])
}

/// The page that requests name as the one they come from.
pub open spec fn referer(origin: Seq<char>) -> Seq<char> {
    origin + "/chats/"@
}

/// Whether the headers that depend on the caller are legal header values.
pub open spec fn transport_ready(origin: Seq<char>, cookie: Seq<char>) -> bool {
    legal_header_value(origin) && legal_header_value(cookie)
}

/// The transport for a service and a session cookie.
pub open spec fn transport_for(origin: Seq<char>, cookie: Seq<char>) -> TransportView {
    TransportView {
        headers: seq![
            ("accept"@, "application/json"@),
            ("origin"@, origin),
            ("referer"@, referer(origin)),
            ("connection"@, "keep-alive"@),
            ("user-agent"@, USER_AGENT@),
            ("cookie"@, cookie),
        ],
        user_agent: USER_AGENT@,
        https_only: true,
        gzip: true,
    }
}

/// The bytes of a character's encoding are legal exactly when the character
/// is: a character of ASCII is its own byte, and the bytes of any other
/// character are all above ASCII.
proof fn lemma_legal_scalar(c: char)
    ensures
        legal_header_bytes(encode_scalar(c as u32)) <==> legal_header_char(c),
{
    let scalar = c as u32;
    let bytes = encode_scalar(scalar);
    assert(is_scalar(scalar));
    if has_width_1_encoding(scalar) {
        assert(scalar as u8 == leading_byte_width_1(scalar)) by (bit_vector)
            requires
                has_width_1_encoding(scalar),
        ;
        assert(bytes[0] == scalar as u8);
        if legal_header_bytes(bytes) {
            assert(legal_header_byte(bytes[0]));
        }
    } else {
        assert(leading_byte_width_2(scalar) >= 0x80) by (bit_vector);
        assert(leading_byte_width_3(scalar) >= 0x80) by (bit_vector);
        assert(leading_byte_width_4(scalar) >= 0x80) by (bit_vector);
        assert(last_continuation_byte(scalar) >= 0x80) by (bit_vector);
        assert(second_last_continuation_byte(scalar) >= 0x80) by (bit_vector);
        assert(third_last_continuation_byte(scalar) >= 0x80) by (bit_vector);
    }
}

/// A text is a legal header value exactly when every byte of its UTF-8
/// encoding may stand in one.
pub proof fn lemma_legal_bytes(text: Seq<char>)
    ensures
        legal_header_bytes(encode_utf8(text)) <==> legal_header_value(text),
    decreases text.len(),
{
    if text.len() > 0 {
        let first = encode_scalar(text[0] as u32);
        let rest = text.drop_first();
        let bytes = encode_utf8(text);
        lemma_legal_scalar(text[0]);
        lemma_legal_bytes(rest);
        assert(bytes == first + encode_utf8(rest));
        if legal_header_bytes(bytes) {
            assert forall|i: int| 0 <= i < first.len() implies legal_header_byte(
                #[trigger] first[i],
            ) by {
                assert(first[i] == bytes[i]);
            }
            assert forall|i: int| 0 <= i < encode_utf8(rest).len() implies legal_header_byte(
                #[trigger] encode_utf8(rest)[i],
            ) by {
                assert(encode_utf8(rest)[i] == bytes[i + first.len()]);
            }
            assert forall|i: int| 0 <= i < text.len() implies legal_header_char(
                #[trigger] text[i],
            ) by {
                if i > 0 {
                    assert(text[i] == rest[i - 1]);
                }
            }
        }
        if legal_header_value(text) {
            assert(legal_header_char(text[0]));
            assert forall|i: int| 0 <= i < rest.len() implies legal_header_char(
                #[trigger] rest[i],
            ) by {
                assert(rest[i] == text[i + 1]);
            }
        }
    }
}

/// The page named as the referer is a legal header value where the origin is.
proof fn lemma_referer_is_legal(origin: Seq<char>)
    requires
        legal_header_value(origin),
    ensures
        legal_header_value(referer(origin)),
{
    reveal_strlit("/chats/");
    let page = referer(origin);
    assert forall|i: int| 0 <= i < page.len() implies legal_header_char(#[trigger] page[i]) by {
        if i < origin.len() {
            assert(page[i] == origin[i]);
        } else {
            assert(page[i] == "/chats/"@[i - origin.len()]);
        }
    }
}

/// `reqwest::header::HeaderValue::from_str` accepts a text exactly when each
/// byte of it is at least 32 and not 127, or is the tab.
#[verifier::external_body]
fn header_value(text: &str) -> (r: Result<HeaderValue, InvalidHeaderValue>)
    ensures
        r is Ok <==> legal_header_bytes(encode_utf8(text@)),
{
    HeaderValue::from_str(text)
}

/// Whether a text is a legal header value.
pub fn is_legal_header_value(text: &str) -> (r: bool)
    ensures
        r == legal_header_value(text@),
{
    proof {
        lemma_legal_bytes(text@);
    }
    header_value(text).is_ok()
}

/// One header, made of copies of the name and the value.
fn header(name: &str, value: &str) -> (r: Header)
    ensures
        r.name@ == name@,
        r.value@ == value@,
{
    Header { name: name.to_owned(), value: value.to_owned() }
}

/// `origin` followed by `path`.
pub fn join(origin: &str, path: &str) -> (r: String)
    ensures
        r@ == origin@ + path@,
{
    origin.to_owned().concat(path)
}

/// The transport for a service and a session cookie, with the fixed headers
/// and the cookie, over TLS only. Fails where the cookie, or the origin the
/// service was configured with, is no legal header value. In the transport
/// it gives, every header that depends on the caller is a legal header value.
pub fn build_request(service: &Service, cookie: &str) -> (r: Result<Transport, Error>)
    ensures
        match r {
            Ok(transport) => {
                &&& transport_ready(service.origin@, cookie@)
                &&& transport@ == transport_for(service.origin@, cookie@)
                &&& legal_header_value(referer(service.origin@))
            },
            Err(e) => !transport_ready(service.origin@, cookie@) && e == Error::InvalidCredential,
        },
{
    if !is_legal_header_value(service.origin.as_str()) || !is_legal_header_value(cookie) {
        return Err(Error::InvalidCredential);
    }
    let page = join(service.origin.as_str(), "/chats/");
    let mut headers: Vec<Header> = Vec::new();
    headers.push(header("accept", "application/json"));
    headers.push(header("origin", service.origin.as_str()));
    headers.push(header("referer", page.as_str()));
    headers.push(header("connection", "keep-alive"));
    headers.push(header("user-agent", USER_AGENT));
    headers.push(header("cookie", cookie));
    let transport = Transport {
        headers,
        user_agent: USER_AGENT.to_owned(),
        https_only: true,
        gzip: true,
    };
    proof {
        assert(transport@.headers =~= transport_for(service.origin@, cookie@).headers);
        lemma_referer_is_legal(service.origin@);
    }
    Ok(transport)
}

} // verus!
