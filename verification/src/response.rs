//! HTTP responses, and what encodes them.
use crate::bc::{room, unsent, write_state};
use crate::error::Error;
use crate::header::{field_views, Connection, HeaderField};
use crate::status::{digit_text, Status};
use bytecodec::bytes::Utf8Encoder;
use bytecodec::io::WriteBuf;
use bytecodec::EncodeExt;
use httpcodec::{BodyEncoder, HttpVersion, ReasonPhrase, Response, ResponseEncoder, StatusCode};
use vstd::prelude::*;
use vstd::slice::slice_subrange;

verus! {

/// Whether the codec takes `c` as a visible character.
pub open spec fn is_visible_char(c: char) -> bool {
    0x21 <= c as u32 <= 0x7e
}

/// Whether the codec takes `c` as a character of a reason phrase: a visible
/// character, a space or a tab.
pub open spec fn is_phrase_char(c: char) -> bool {
    is_visible_char(c) || c == ' ' || c == '\t'
}

/// Whether the codec takes `c` as a character of a token.
pub open spec fn is_token_char(c: char) -> bool {
    ||| c == '!' || c == '#' || c == '$' || c == '%' || c == '&' || c == '\'' || c == '*'
    ||| c == '+' || c == '-' || c == '.' || c == '^' || c == '_' || c == '`' || c == '|' || c == '~'
    ||| 0x30 <= c as u32 <= 0x39
    ||| 0x61 <= c as u32 <= 0x7a
    ||| 0x41 <= c as u32 <= 0x5a
}

/// Whether the codec takes `phrase` as a reason phrase.
pub open spec fn is_phrase(phrase: Seq<char>) -> bool {
    forall|i: int| 0 <= i < phrase.len() ==> is_phrase_char(#[trigger] phrase[i])
}

/// Whether the codec takes `field` as a header field: its name is made of
/// token characters, and its value of visible characters.
pub open spec fn is_field(field: (Seq<char>, Seq<char>)) -> bool {
    &&& forall|i: int| 0 <= i < field.0.len() ==> is_token_char(#[trigger] field.0[i])
    &&& forall|i: int| 0 <= i < field.1.len() ==> is_visible_char(#[trigger] field.1[i])
}

/// Whether the codec takes the parts of a response: the status code has
/// three digits and is no less than 100, and the reason phrase and each
/// header field are taken.
pub open spec fn encodable(
    status_code: u16,
    reason_phrase: Seq<char>,
    header: Seq<(Seq<char>, Seq<char>)>,
) -> bool {
    &&& 100 <= status_code < 1000
    &&& is_phrase(reason_phrase)
    &&& forall|i: int| 0 <= i < header.len() ==> is_field(#[trigger] header[i])
}

/// Whether `i` is one of the first forty indices.
spec fn below_forty(i: int) -> bool {
    i == 0 || i == 1 || i == 2 || i == 3 || i == 4 || i == 5 || i == 6 || i == 7 || i == 8 || i == 9
        || i == 10 || i == 11 || i == 12 || i == 13 || i == 14 || i == 15 || i == 16 || i == 17 || i
        == 18 || i == 19 || i == 20 || i == 21 || i == 22 || i == 23 || i == 24 || i == 25 || i == 26
        || i == 27 || i == 28 || i == 29 || i == 30 || i == 31 || i == 32 || i == 33 || i == 34 || i
        == 35 || i == 36 || i == 37 || i == 38 || i == 39
}

/// The codec takes the reason phrase of every status.
pub proof fn lemma_reason_phrase_is_phrase(status: Status)
    ensures
        is_phrase(status.spec_reason_phrase()),
{
    match status {
            Status::Continue => {
                reveal_strlit("Continue");
                assert forall|i: int| 0 <= i < "Continue"@.len() implies is_phrase_char(
                    #[trigger] "Continue"@[i],
                ) by {
                    assert(below_forty(i));
                }
            },
            Status::SwitchingProtocols => {
                reveal_strlit("Switching Protocols");
                assert forall|i: int| 0 <= i < "Switching Protocols"@.len() implies is_phrase_char(
                    #[trigger] "Switching Protocols"@[i],
                ) by {
                    assert(below_forty(i));
                }
            },
            Status::Processing => {
                reveal_strlit("Processing");
                assert forall|i: int| 0 <= i < "Processing"@.len() implies is_phrase_char(
                    #[trigger] "Processing"@[i],
                ) by {
                    assert(below_forty(i));
                }
            },
            Status::Okay => {
                reveal_strlit("OK");
                assert forall|i: int| 0 <= i < "OK"@.len() implies is_phrase_char(
                    #[trigger] "OK"@[i],
                ) by {
                    assert(below_forty(i));
                }
            },
            Status::Created => {
                reveal_strlit("Created");
                assert forall|i: int| 0 <= i < "Created"@.len() implies is_phrase_char(
                    #[trigger] "Created"@[i],
                ) by {
                    assert(below_forty(i));
                }
            },
            Status::Accepted => {
                reveal_strlit("Accepted");
                assert forall|i: int| 0 <= i < "Accepted"@.len() implies is_phrase_char(
                    #[trigger] "Accepted"@[i],
                ) by {
                    assert(below_forty(i));
                }
            },
            Status::NonAuthoritativeInformation => {
                reveal_strlit("Non-Authoritative Information");
                assert forall|i: int| 0 <= i < "Non-Authoritative Information"@.len() implies is_phrase_char(
                    #[trigger] "Non-Authoritative Information"@[i],
                ) by {
                    assert(below_forty(i));
                }
            },
            Status::NoContent => {
                reveal_strlit("No Content");
                assert forall|i: int| 0 <= i < "No Content"@.len() implies is_phrase_char(
                    #[trigger] "No Content"@[i],
                ) by {
                    assert(below_forty(i));
                }
            },
            Status::ResetContent => {
                reveal_strlit("Reset Content");
                assert forall|i: int| 0 <= i < "Reset Content"@.len() implies is_phrase_char(
                    #[trigger] "Reset Content"@[i],
                ) by {
                    assert(below_forty(i));
                }
            },
            Status::PartialContent => {
                reveal_strlit("Partial Content");
                assert forall|i: int| 0 <= i < "Partial Content"@.len() implies is_phrase_char(
                    #[trigger] "Partial Content"@[i],
                ) by {
                    assert(below_forty(i));
                }
            },
            Status::MultiStatus => {
                reveal_strlit("Multi-Status");
                assert forall|i: int| 0 <= i < "Multi-Status"@.len() implies is_phrase_char(
                    #[trigger] "Multi-Status"@[i],
                ) by {
                    assert(below_forty(i));
                }
            },
            Status::AlreadyReported => {
                reveal_strlit("Already Reported");
                assert forall|i: int| 0 <= i < "Already Reported"@.len() implies is_phrase_char(
                    #[trigger] "Already Reported"@[i],
                ) by {
                    assert(below_forty(i));
                }
            },
            Status::ImUsed => {
                reveal_strlit("IM Used");
                assert forall|i: int| 0 <= i < "IM Used"@.len() implies is_phrase_char(
                    #[trigger] "IM Used"@[i],
                ) by {
                    assert(below_forty(i));
                }
            },
            Status::MultipleChoices => {
                reveal_strlit("Multiple Choices");
                assert forall|i: int| 0 <= i < "Multiple Choices"@.len() implies is_phrase_char(
                    #[trigger] "Multiple Choices"@[i],
                ) by {
                    assert(below_forty(i));
                }
            },
            Status::MovedPermanently => {
                reveal_strlit("Moved Permanently");
                assert forall|i: int| 0 <= i < "Moved Permanently"@.len() implies is_phrase_char(
                    #[trigger] "Moved Permanently"@[i],
                ) by {
                    assert(below_forty(i));
                }
            },
            Status::Found => {
                reveal_strlit("Found");
                assert forall|i: int| 0 <= i < "Found"@.len() implies is_phrase_char(
                    #[trigger] "Found"@[i],
                ) by {
                    assert(below_forty(i));
                }
            },
            Status::SeeOther => {
                reveal_strlit("See Other");
                assert forall|i: int| 0 <= i < "See Other"@.len() implies is_phrase_char(
                    #[trigger] "See Other"@[i],
                ) by {
                    assert(below_forty(i));
                }
            },
            Status::NotModified => {
                reveal_strlit("Not Modified");
                assert forall|i: int| 0 <= i < "Not Modified"@.len() implies is_phrase_char(
                    #[trigger] "Not Modified"@[i],
                ) by {
                    assert(below_forty(i));
                }
            },
            Status::UseProxy => {
                reveal_strlit("Use Proxy");
                assert forall|i: int| 0 <= i < "Use Proxy"@.len() implies is_phrase_char(
                    #[trigger] "Use Proxy"@[i],
                ) by {
                    assert(below_forty(i));
                }
            },
            Status::TemporaryRedirect => {
                reveal_strlit("Temporary Redirect");
                assert forall|i: int| 0 <= i < "Temporary Redirect"@.len() implies is_phrase_char(
                    #[trigger] "Temporary Redirect"@[i],
                ) by {
                    assert(below_forty(i));
                }
            },
            Status::PermanentRedirect => {
                reveal_strlit("Permanent Redirect");
                assert forall|i: int| 0 <= i < "Permanent Redirect"@.len() implies is_phrase_char(
                    #[trigger] "Permanent Redirect"@[i],
                ) by {
                    assert(below_forty(i));
                }
            },
            Status::BadRequest => {
                reveal_strlit("Bad Request");
                assert forall|i: int| 0 <= i < "Bad Request"@.len() implies is_phrase_char(
                    #[trigger] "Bad Request"@[i],
                ) by {
                    assert(below_forty(i));
                }
            },
            Status::Unauthorized => {
                reveal_strlit("Unauthorized");
                assert forall|i: int| 0 <= i < "Unauthorized"@.len() implies is_phrase_char(
                    #[trigger] "Unauthorized"@[i],
                ) by {
                    assert(below_forty(i));
                }
            },
            Status::PaymentRequired => {
                reveal_strlit("Payment Required");
                assert forall|i: int| 0 <= i < "Payment Required"@.len() implies is_phrase_char(
                    #[trigger] "Payment Required"@[i],
                ) by {
                    assert(below_forty(i));
                }
            },
            Status::Forbidden => {
                reveal_strlit("Forbidden");
                assert forall|i: int| 0 <= i < "Forbidden"@.len() implies is_phrase_char(
                    #[trigger] "Forbidden"@[i],
                ) by {
                    assert(below_forty(i));
                }
            },
            Status::NotFound => {
                reveal_strlit("Not Found");
                assert forall|i: int| 0 <= i < "Not Found"@.len() implies is_phrase_char(
                    #[trigger] "Not Found"@[i],
                ) by {
                    assert(below_forty(i));
                }
            },
            Status::MethodNotAllowed => {
                reveal_strlit("Method Not Allowed");
                assert forall|i: int| 0 <= i < "Method Not Allowed"@.len() implies is_phrase_char(
                    #[trigger] "Method Not Allowed"@[i],
                ) by {
                    assert(below_forty(i));
                }
            },
            Status::NotAcceptable => {
                reveal_strlit("Not Acceptable");
                assert forall|i: int| 0 <= i < "Not Acceptable"@.len() implies is_phrase_char(
                    #[trigger] "Not Acceptable"@[i],
                ) by {
                    assert(below_forty(i));
                }
            },
            Status::ProxyAuthenticationRequired => {
                reveal_strlit("Proxy Authentication Required");
                assert forall|i: int| 0 <= i < "Proxy Authentication Required"@.len() implies is_phrase_char(
                    #[trigger] "Proxy Authentication Required"@[i],
                ) by {
                    assert(below_forty(i));
                }
            },
            Status::RequestTimeout => {
                reveal_strlit("Request Timeout");
                assert forall|i: int| 0 <= i < "Request Timeout"@.len() implies is_phrase_char(
                    #[trigger] "Request Timeout"@[i],
                ) by {
                    assert(below_forty(i));
                }
            },
            Status::Conflict => {
                reveal_strlit("Conflict");
                assert forall|i: int| 0 <= i < "Conflict"@.len() implies is_phrase_char(
                    #[trigger] "Conflict"@[i],
                ) by {
                    assert(below_forty(i));
                }
            },
            Status::Gone => {
                reveal_strlit("Gone");
                assert forall|i: int| 0 <= i < "Gone"@.len() implies is_phrase_char(
                    #[trigger] "Gone"@[i],
                ) by {
                    assert(below_forty(i));
                }
            },
            Status::LengthRequired => {
                reveal_strlit("Length Required");
                assert forall|i: int| 0 <= i < "Length Required"@.len() implies is_phrase_char(
                    #[trigger] "Length Required"@[i],
                ) by {
                    assert(below_forty(i));
                }
            },
            Status::PreconditionFailed => {
                reveal_strlit("Precondition Failed");
                assert forall|i: int| 0 <= i < "Precondition Failed"@.len() implies is_phrase_char(
                    #[trigger] "Precondition Failed"@[i],
                ) by {
                    assert(below_forty(i));
                }
            },
            Status::PayloadTooLarge => {
                reveal_strlit("Payload Too Large");
                assert forall|i: int| 0 <= i < "Payload Too Large"@.len() implies is_phrase_char(
                    #[trigger] "Payload Too Large"@[i],
                ) by {
                    assert(below_forty(i));
                }
            },
            Status::UriTooLong => {
                reveal_strlit("URI Too Long");
                assert forall|i: int| 0 <= i < "URI Too Long"@.len() implies is_phrase_char(
                    #[trigger] "URI Too Long"@[i],
                ) by {
                    assert(below_forty(i));
                }
            },
            Status::UnsupportedMediaType => {
                reveal_strlit("Unsupported Media Type");
                assert forall|i: int| 0 <= i < "Unsupported Media Type"@.len() implies is_phrase_char(
                    #[trigger] "Unsupported Media Type"@[i],
                ) by {
                    assert(below_forty(i));
                }
            },
            Status::RangeNotSatisfiable => {
                reveal_strlit("Range Not Satisfiable");
                assert forall|i: int| 0 <= i < "Range Not Satisfiable"@.len() implies is_phrase_char(
                    #[trigger] "Range Not Satisfiable"@[i],
                ) by {
                    assert(below_forty(i));
                }
            },
            Status::ExceptionFailed => {
                reveal_strlit("Expectation Failed");
                assert forall|i: int| 0 <= i < "Expectation Failed"@.len() implies is_phrase_char(
                    #[trigger] "Expectation Failed"@[i],
                ) by {
                    assert(below_forty(i));
                }
            },
            Status::ImATeapot => {
                reveal_strlit("I'm a teapot");
                assert forall|i: int| 0 <= i < "I'm a teapot"@.len() implies is_phrase_char(
                    #[trigger] "I'm a teapot"@[i],
                ) by {
                    assert(below_forty(i));
                }
            },
            Status::MisdirectedRequest => {
                reveal_strlit("Misdirected Request");
                assert forall|i: int| 0 <= i < "Misdirected Request"@.len() implies is_phrase_char(
                    #[trigger] "Misdirected Request"@[i],
                ) by {
                    assert(below_forty(i));
                }
            },
            Status::UnprocessableEntity => {
                reveal_strlit("Unprocessable Entity");
                assert forall|i: int| 0 <= i < "Unprocessable Entity"@.len() implies is_phrase_char(
                    #[trigger] "Unprocessable Entity"@[i],
                ) by {
                    assert(below_forty(i));
                }
            },
            Status::Locked => {
                reveal_strlit("Locked");
                assert forall|i: int| 0 <= i < "Locked"@.len() implies is_phrase_char(
                    #[trigger] "Locked"@[i],
                ) by {
                    assert(below_forty(i));
                }
            },
            Status::FailedDependency => {
                reveal_strlit("Failed Dependency");
                assert forall|i: int| 0 <= i < "Failed Dependency"@.len() implies is_phrase_char(
                    #[trigger] "Failed Dependency"@[i],
                ) by {
                    assert(below_forty(i));
                }
            },
            Status::UpgradeRequired => {
                reveal_strlit("Upgrade Required");
                assert forall|i: int| 0 <= i < "Upgrade Required"@.len() implies is_phrase_char(
                    #[trigger] "Upgrade Required"@[i],
                ) by {
                    assert(below_forty(i));
                }
            },
            Status::UnavailableForLegalReasons => {
                reveal_strlit("Unavailable For Legal Reasons");
                assert forall|i: int| 0 <= i < "Unavailable For Legal Reasons"@.len() implies is_phrase_char(
                    #[trigger] "Unavailable For Legal Reasons"@[i],
                ) by {
                    assert(below_forty(i));
                }
            },
            Status::InternalServerError => {
                reveal_strlit("Internal Server Error");
                assert forall|i: int| 0 <= i < "Internal Server Error"@.len() implies is_phrase_char(
                    #[trigger] "Internal Server Error"@[i],
                ) by {
                    assert(below_forty(i));
                }
            },
            Status::NotImplemented => {
                reveal_strlit("Not Implemented");
                assert forall|i: int| 0 <= i < "Not Implemented"@.len() implies is_phrase_char(
                    #[trigger] "Not Implemented"@[i],
                ) by {
                    assert(below_forty(i));
                }
            },
            Status::BadGateway => {
                reveal_strlit("Bad Gateway");
                assert forall|i: int| 0 <= i < "Bad Gateway"@.len() implies is_phrase_char(
                    #[trigger] "Bad Gateway"@[i],
                ) by {
                    assert(below_forty(i));
                }
            },
            Status::ServiceUnavailable => {
                reveal_strlit("Service Unavailable");
                assert forall|i: int| 0 <= i < "Service Unavailable"@.len() implies is_phrase_char(
                    #[trigger] "Service Unavailable"@[i],
                ) by {
                    assert(below_forty(i));
                }
            },
            Status::GatewayTimeout => {
                reveal_strlit("Gateway Timeout");
                assert forall|i: int| 0 <= i < "Gateway Timeout"@.len() implies is_phrase_char(
                    #[trigger] "Gateway Timeout"@[i],
                ) by {
                    assert(below_forty(i));
                }
            },
            Status::HttpVersionNotSupported => {
                reveal_strlit("HTTP Version Not Supported");
                assert forall|i: int| 0 <= i < "HTTP Version Not Supported"@.len() implies is_phrase_char(
                    #[trigger] "HTTP Version Not Supported"@[i],
                ) by {
                    assert(below_forty(i));
                }
            },
            Status::VariantAlsoNegotiates => {
                reveal_strlit("Variant Also Negotiates");
                assert forall|i: int| 0 <= i < "Variant Also Negotiates"@.len() implies is_phrase_char(
                    #[trigger] "Variant Also Negotiates"@[i],
                ) by {
                    assert(below_forty(i));
                }
            },
            Status::InsufficientStorage => {
                reveal_strlit("Insufficient Storage");
                assert forall|i: int| 0 <= i < "Insufficient Storage"@.len() implies is_phrase_char(
                    #[trigger] "Insufficient Storage"@[i],
                ) by {
                    assert(below_forty(i));
                }
            },
            Status::LoopDetected => {
                reveal_strlit("Loop Detected");
                assert forall|i: int| 0 <= i < "Loop Detected"@.len() implies is_phrase_char(
                    #[trigger] "Loop Detected"@[i],
                ) by {
                    assert(below_forty(i));
                }
            },
            Status::BandwidthLimitExceeded => {
                reveal_strlit("Bandwidth Limit Exceeded");
                assert forall|i: int| 0 <= i < "Bandwidth Limit Exceeded"@.len() implies is_phrase_char(
                    #[trigger] "Bandwidth Limit Exceeded"@[i],
                ) by {
                    assert(below_forty(i));
                }
            },
            Status::NotExtended => {
                reveal_strlit("Not Extended");
                assert forall|i: int| 0 <= i < "Not Extended"@.len() implies is_phrase_char(
                    #[trigger] "Not Extended"@[i],
                ) by {
                    assert(below_forty(i));
                }
            },
    }
}

/// The codec takes the response to every failure.
pub proof fn lemma_error_is_encodable(status: Status)
    ensures
        encodable(
            status.spec_code(),
            status.spec_reason_phrase(),
            seq![Connection::Close.spec_field()],
        ),
{
    lemma_reason_phrase_is_phrase(status);
    reveal_strlit("Connection");
    reveal_strlit("close");
    let field = Connection::Close.spec_field();
    assert forall|i: int| 0 <= i < field.0.len() implies is_token_char(#[trigger] field.0[i]) by {
        assert(below_forty(i));
    }
    assert forall|i: int| 0 <= i < field.1.len() implies is_visible_char(#[trigger] field.1[i]) by {
        assert(below_forty(i));
    }
    assert(is_field(field));
}

/// The bytes of the text `text`.
pub open spec fn utf8(text: Seq<char>) -> Seq<u8> {
    vstd::utf8::encode_utf8(text)
}

/// The text of an HTTP version.
pub open spec fn version_text(version: HttpVersion) -> Seq<char> {
    match version {
        HttpVersion::V1_0 => "HTTP/1.0"@,
        HttpVersion::V1_1 => "HTTP/1.1"@,
    }
}

/// The three digits of a status code.
pub open spec fn code_text(status_code: u16) -> Seq<char> {
    digit_text(status_code as int / 100 % 10) + digit_text(status_code as int / 10 % 10)
        + digit_text(status_code as int % 10)
}

/// The number `n` in decimal digits.
pub open spec fn decimal(n: nat) -> Seq<char>
    decreases n,
{
    if n < 10 {
        digit_text(n as int)
    } else {
        decimal(n / 10) + digit_text((n % 10) as int)
    }
}

/// The lines of the header fields `header`: `name: value` and a line break
/// for each, in their order.
pub open spec fn fields_text(header: Seq<(Seq<char>, Seq<char>)>) -> Seq<char>
    decreases header.len(),
{
    if header.len() == 0 {
        Seq::empty()
    } else {
        fields_text(header.drop_last()) + header.last().0 + ": "@ + header.last().1 + "\r\n"@
    }
}

/// The head of the response with the given status line and header, and a
/// body of `length` bytes: the status line, the header fields, the field
/// that tells the length of the body, and an empty line.
pub open spec fn head_text(
    version: HttpVersion,
    status_code: u16,
    reason_phrase: Seq<char>,
    header: Seq<(Seq<char>, Seq<char>)>,
    length: nat,
) -> Seq<char> {
    version_text(version) + " "@ + code_text(status_code) + " "@ + reason_phrase + "\r\n"@
        + fields_text(header) + "Content-Length: "@ + decimal(length) + "\r\n\r\n"@
}

/// The bytes of the response with the given status line, header and body:
/// its head, with the length of the body told in the header, and its body.
pub open spec fn response_bytes(
    version: HttpVersion,
    status_code: u16,
    reason_phrase: Seq<char>,
    header: Seq<(Seq<char>, Seq<char>)>,
    body: Seq<char>,
) -> Seq<u8> {
    utf8(head_text(version, status_code, reason_phrase, header, utf8(body).len())) + utf8(body)
}

/// `ResponseEncoder::encode_into_bytes`, with a `BodyEncoder` of a
/// `Utf8Encoder` for the body, on the `Response` that is made of the parts
/// of `res` by `StatusCode::new`, `ReasonPhrase::new`, `Response::new`,
/// `HeaderField::new` and `HeaderMut::add_field`.
///
/// The codec refuses a status code that is less than 100 or has more than
/// three digits, a reason phrase and a header field with a character that
/// it does not take, and nothing else. The bytes are those of the status
/// line, of the header fields in their order, of the `Content-Length` field
/// that the encoder of the body adds behind them, of an empty line and of
/// the body.
#[verifier::external_body]
fn encode_response(res: &Res<String>) -> (r: Option<Vec<u8>>)
    ensures
        r is Some <==> encodable(
            res.spec_status_code(),
            res.spec_reason_phrase(),
            res.spec_header(),
        ),
        r matches Some(bytes) ==> bytes@ == response_bytes(
            res.spec_version(),
            res.spec_status_code(),
            res.spec_reason_phrase(),
            res.spec_header(),
            res.spec_body()@,
        ),
{
    let status = StatusCode::new(res.status_code).ok()?;
    let reason = ReasonPhrase::new(&res.reason_phrase).ok()?;
    let mut response = Response::new(res.version, status, reason, res.body.clone());
    for field in res.header.iter() {
        let field = httpcodec::HeaderField::new(&field.name, &field.value).ok()?;
        response.header_mut().add_field(field);
    }
    ResponseEncoder::new(BodyEncoder::new(Utf8Encoder::new())).encode_into_bytes(response).ok()
}

/// `<WriteBuf as std::io::Write>::write`: copies the bytes of `data` that
/// the buffer has room for behind the bytes that it holds, and returns their
/// number.
#[verifier::external_body]
fn write_buf_put(buf: &mut WriteBuf<Vec<u8>>, data: &[u8]) -> (n: usize)
    ensures
        n == (if data@.len() <= room(*old(buf)) {
            data@.len()
        } else {
            room(*old(buf))
        }),
        unsent(*final(buf)) == unsent(*old(buf)) + data@.take(n as int),
        room(*final(buf)) == room(*old(buf)) - n,
        write_state(*final(buf)) == write_state(*old(buf)),
{
    std::io::Write::write(buf, data).unwrap_or(0)
}

/// HTTP response.
///
/// `T` is the type of the response body.
#[derive(Debug)]
pub struct Res<T> {
    version: HttpVersion,
    status_code: u16,
    reason_phrase: String,
    header: Vec<HeaderField>,
    body: T,
}

impl<T> Res<T> {
    /// The HTTP version of the response.
    pub closed spec fn spec_version(&self) -> HttpVersion {
        self.version
    }

    /// The status code of the response.
    pub closed spec fn spec_status_code(&self) -> u16 {
        self.status_code
    }

    /// The reason phrase of the response.
    pub closed spec fn spec_reason_phrase(&self) -> Seq<char> {
        self.reason_phrase@
    }

    /// The header of the response.
    pub closed spec fn spec_header(&self) -> Seq<(Seq<char>, Seq<char>)> {
        field_views(self.header@)
    }

    /// The body of the response.
    pub closed spec fn spec_body(&self) -> T {
        self.body
    }

    /// Makes a new `Res` instance: an HTTP/1.1 response with the code and
    /// the reason phrase of `status`, and an empty header.
    pub fn new(status: Status, body: T) -> (res: Self)
        ensures
            res.spec_version() == HttpVersion::V1_1,
            res.spec_status_code() == status.spec_code(),
            res.spec_reason_phrase() == status.spec_reason_phrase(),
            res.spec_header() == Seq::<(Seq<char>, Seq<char>)>::empty(),
            res.spec_body() == body,
    {
        let res = Res {
            version: HttpVersion::V1_1,
            status_code: status.code(),
            reason_phrase: status.reason_phrase().to_owned(),
            header: Vec::new(),
            body,
        };
        proof {
            assert(res.spec_header() =~= Seq::<(Seq<char>, Seq<char>)>::empty());
        }
        res
    }

    /// Returns the HTTP version of the response.
    pub fn version(&self) -> (version: HttpVersion)
        ensures
            version == self.spec_version(),
    {
        self.version
    }

    /// Returns the status code of the response.
    pub fn status_code(&self) -> (code: u16)
        ensures
            code == self.spec_status_code(),
    {
        self.status_code
    }

    /// Returns the reason phrase of the response.
    pub fn reason_phrase(&self) -> (phrase: &str)
        ensures
            phrase@ == self.spec_reason_phrase(),
    {
        self.reason_phrase.as_str()
    }

    /// Returns the header of the response.
    pub fn header(&self) -> (header: &Vec<HeaderField>)
        ensures
            field_views(header@) == self.spec_header(),
    {
        &self.header
    }

    /// Returns the mutable header of the response.
    pub fn header_mut(&mut self) -> (header: &mut Vec<HeaderField>)
        ensures
            field_views(header@) == old(self).spec_header(),
            final(self).spec_header() == field_views(final(header)@),
            final(self).spec_version() == old(self).spec_version(),
            final(self).spec_status_code() == old(self).spec_status_code(),
            final(self).spec_reason_phrase() == old(self).spec_reason_phrase(),
            final(self).spec_body() == old(self).spec_body(),
    {
        &mut self.header
    }

    /// Adds a field to the tail of the header of the response.
    pub fn add_field(&mut self, field: HeaderField)
        ensures
            final(self).spec_header() == old(self).spec_header().push(field@),
            final(self).spec_version() == old(self).spec_version(),
            final(self).spec_status_code() == old(self).spec_status_code(),
            final(self).spec_reason_phrase() == old(self).spec_reason_phrase(),
            final(self).spec_body() == old(self).spec_body(),
    {
        self.header.push(field);
        proof {
            assert(self.spec_header() =~= old(self).spec_header().push(field@));
        }
    }

    /// Returns a reference to the body of the response.
    pub fn body(&self) -> (body: &T)
        ensures
            *body == self.spec_body(),
    {
        &self.body
    }

    /// Returns a mutable reference to the body of the response.
    pub fn body_mut(&mut self) -> (body: &mut T)
        ensures
            *body == old(self).spec_body(),
            final(self).spec_body() == *final(body),
            final(self).spec_header() == old(self).spec_header(),
            final(self).spec_version() == old(self).spec_version(),
            final(self).spec_status_code() == old(self).spec_status_code(),
            final(self).spec_reason_phrase() == old(self).spec_reason_phrase(),
    {
        &mut self.body
    }

    /// Takes ownership of the response, and returns its parts: the version,
    /// the status code, the reason phrase, the header and the body.
    pub fn into_parts(self) -> (parts: (HttpVersion, u16, String, Vec<HeaderField>, T))
        ensures
            parts.0 == self.spec_version(),
            parts.1 == self.spec_status_code(),
            parts.2@ == self.spec_reason_phrase(),
            field_views(parts.3@) == self.spec_header(),
            parts.4 == self.spec_body(),
    {
        (self.version, self.status_code, self.reason_phrase, self.header, self.body)
    }
}

impl Res<String> {
    /// The bytes that the response is encoded to, if the codec takes it.
    pub open spec fn spec_encoded(&self) -> Option<Seq<u8>> {
        if encodable(self.spec_status_code(), self.spec_reason_phrase(), self.spec_header()) {
            Some(
                response_bytes(
                    self.spec_version(),
                    self.spec_status_code(),
                    self.spec_reason_phrase(),
                    self.spec_header(),
                    self.spec_body()@,
                ),
            )
        } else {
            None
        }
    }

    /// Whether this is the response that stands for the failure `status`:
    /// it has the code of `status`, its reason phrase as reason phrase and
    /// as body, and the one header field `Connection: close`.
    pub open spec fn is_error(&self, status: Status) -> bool {
        &&& self.spec_version() == HttpVersion::V1_1
        &&& self.spec_status_code() == status.spec_code()
        &&& self.spec_reason_phrase() == status.spec_reason_phrase()
        &&& self.spec_header() == seq![Connection::Close.spec_field()]
        &&& self.spec_body()@ == status.spec_reason_phrase()
    }

    /// Makes the response that stands for the failure `status`.
    pub fn error(status: Status) -> (res: Self)
        ensures
            res.is_error(status),
            res.spec_encoded() == Some(error_bytes(status)),
    {
        let mut res = Res::new(status, status.reason_phrase().to_owned());
        res.add_field(Connection::Close.field());
        proof {
            assert(res.spec_header() =~= seq![Connection::Close.spec_field()]);
            lemma_error_is_encodable(status);
        }
        res
    }
}

/// The bytes that are sent for the failure `status`: those of the HTTP/1.1
/// response with the code and the reason phrase of `status`, the header
/// field `Connection: close`, and the reason phrase as body.
pub open spec fn error_bytes(status: Status) -> Seq<u8> {
    response_bytes(
        HttpVersion::V1_1,
        status.spec_code(),
        status.spec_reason_phrase(),
        seq![Connection::Close.spec_field()],
        status.spec_reason_phrase(),
    )
}

/// The bytes of a text are no fewer than its characters.
pub proof fn lemma_utf8_is_no_shorter(text: Seq<char>)
    ensures
        utf8(text).len() >= text.len(),
    decreases text.len(),
{
    if text.len() > 0 {
        lemma_utf8_is_no_shorter(text.drop_first());
    }
}

/// No response is without bytes.
pub proof fn lemma_response_has_bytes(
    version: HttpVersion,
    status_code: u16,
    reason_phrase: Seq<char>,
    header: Seq<(Seq<char>, Seq<char>)>,
    body: Seq<char>,
)
    ensures
        response_bytes(version, status_code, reason_phrase, header, body).len() > 0,
{
    let head = head_text(version, status_code, reason_phrase, header, utf8(body).len());
    reveal_strlit("HTTP/1.0");
    reveal_strlit("HTTP/1.1");
    assert(version_text(version).len() == 8);
    assert(head.len() >= 8);
    lemma_utf8_is_no_shorter(head);
}

/// What two steps of an encoder put into a write buffer, the first `first`
/// bytes and the second `second`, is what one step with room for all of them
/// puts there, and the same is left to encode.
pub proof fn lemma_written_in_steps(pending: Seq<u8>, first: int, second: int)
    requires
        0 <= first <= pending.len(),
        0 <= second <= pending.len() - first,
    ensures
        pending.take(first) + pending.skip(first).take(second) == pending.take(first + second),
        pending.skip(first).skip(second) == pending.skip(first + second),
{
    assert(pending.take(first) + pending.skip(first).take(second) =~= pending.take(first + second));
    assert(pending.skip(first).skip(second) =~= pending.skip(first + second));
}

/// What encodes the response of a handler into the write buffer of a connection.
pub trait EncodeResponse: Send {
    /// Encodes what the write buffer has room for.
    fn encode_to_write_buf(&mut self, buf: &mut WriteBuf<Vec<u8>>) -> Result<(), Error>;

    /// Returns `true` if nothing is left to encode, otherwise `false`.
    fn is_idle(&self) -> bool;
}

/// The encoded response to a failure, and how much of it is in the write buffer.
struct ErrorResponse {
    status: Status,
    bytes: Vec<u8>,
    written: usize,
}

impl ErrorResponse {
    /// The bytes are those of the response to the failure, and no more of
    /// them are written than there are.
    #[verifier::type_invariant]
    spec fn wf(&self) -> bool {
        self.written <= self.bytes@.len() && self.bytes@ == error_bytes(self.status)
    }

    /// The bytes that are not in the write buffer yet.
    spec fn pending(&self) -> Seq<u8> {
        self.bytes@.skip(self.written as int)
    }

    /// The encoded response to the failure `status`.
    fn new(status: Status) -> (response: Self)
        ensures
            response.status == status,
            response.pending() == error_bytes(status),
    {
        let res = Res::error(status);
        let bytes = match encode_response(&res) {
            Some(bytes) => bytes,
            None => {
                proof {
                    lemma_error_is_encodable(status);
                }
                Vec::new()
            },
        };
        proof {
            assert(bytes@.skip(0) =~= bytes@);
        }
        ErrorResponse { status, bytes, written: 0 }
    }

    /// Puts the bytes that the write buffer has room for into it.
    fn put(&mut self, buf: &mut WriteBuf<Vec<u8>>) -> (n: usize)
        ensures
            n == (if old(self).pending().len() <= room(*old(buf)) {
                old(self).pending().len()
            } else {
                room(*old(buf))
            }),
            final(self).status == old(self).status,
            final(self).pending() == old(self).pending().skip(n as int),
            unsent(*final(buf)) == unsent(*old(buf)) + old(self).pending().take(n as int),
            room(*final(buf)) == room(*old(buf)) - n,
            write_state(*final(buf)) == write_state(*old(buf)),
    {
        proof {
            use_type_invariant(&*self);
        }
        let rest = slice_subrange(self.bytes.as_slice(), self.written, self.bytes.len());
        let n = write_buf_put(buf, rest);
        proof {
            assert(rest@ =~= self.bytes@.skip(self.written as int));
            assert(self.bytes@.skip(self.written as int).skip(n as int) =~= self.bytes@.skip(
                self.written + n,
            ));
        }
        self.written = self.written + n;
        n
    }

    /// Whether every byte is in the write buffer.
    fn is_done(&self) -> (done: bool)
        ensures
            done == (self.pending().len() == 0),
    {
        proof {
            use_type_invariant(self);
        }
        self.written == self.bytes.len()
    }
}

/// What encodes a response: the bytes of the response to a failure, or the
/// encoder that a handler has made.
enum Encoding {
    Failure(ErrorResponse),
    Reply(Box<dyn EncodeResponse>),
}

/// The encoder of one response.
pub struct ResEncoder(Encoding);

impl ResEncoder {
    /// The failure that the response stands for, if it was not made by a handler.
    pub closed spec fn failure(&self) -> Option<Status> {
        match self.0 {
            Encoding::Failure(e) => Some(e.status),
            Encoding::Reply(_) => None,
        }
    }

    /// The bytes of the response to a failure that are not in the write buffer yet.
    pub closed spec fn pending(&self) -> Seq<u8> {
        match self.0 {
            Encoding::Failure(e) => e.pending(),
            Encoding::Reply(_) => Seq::empty(),
        }
    }

    /// Returns `true` if the response stands for a failure, otherwise `false`.
    pub fn is_failure(&self) -> (r: bool)
        ensures
            r == (self.failure() is Some),
    {
        match &self.0 {
            Encoding::Failure(_) => true,
            Encoding::Reply(_) => false,
        }
    }

    /// Makes the encoder of the response of a handler.
    pub fn new(inner: Box<dyn EncodeResponse>) -> (encoder: Self)
        ensures
            encoder.failure() is None,
    {
        ResEncoder(Encoding::Reply(inner))
    }

    /// Makes the encoder of the response of a handler out of what the codec
    /// has made of the response: the encoder that it has started; or, where
    /// it has refused the response, the encoder of the response to an
    /// internal error.
    pub fn of_reply(started: Option<Box<dyn EncodeResponse>>) -> (encoder: Self)
        ensures
            match started {
                Some(_) => encoder.failure() is None,
                None => {
                    &&& encoder.failure() == Some(Status::InternalServerError)
                    &&& encoder.pending() == error_bytes(Status::InternalServerError)
                },
            },
    {
        match started {
            Some(inner) => ResEncoder::new(inner),
            None => ResEncoder::error(Status::InternalServerError),
        }
    }

    /// Makes the encoder of the response to the failure `status`: of the
    /// response `Res::error(status)`, none of whose bytes is written yet.
    pub fn error(status: Status) -> (encoder: Self)
        ensures
            encoder.failure() == Some(status),
            encoder.pending() == error_bytes(status),
            encoder.pending().len() > 0,
    {
        proof {
            lemma_response_has_bytes(
                HttpVersion::V1_1,
                status.spec_code(),
                status.spec_reason_phrase(),
                seq![Connection::Close.spec_field()],
                status.spec_reason_phrase(),
            );
        }
        ResEncoder(Encoding::Failure(ErrorResponse::new(status)))
    }

    /// Encodes what the write buffer has room for.
    ///
    /// The bytes of the response to a failure go into the buffer in their
    /// order, each of them once.
    pub fn encode_to_write_buf(&mut self, buf: &mut WriteBuf<Vec<u8>>) -> (r: Result<(), Error>)
        ensures
            final(self).failure() == old(self).failure(),
            old(self).failure() is Some ==> {
                let n = if old(self).pending().len() <= room(*old(buf)) {
                    old(self).pending().len()
                } else {
                    room(*old(buf))
                };
                &&& r is Ok
                &&& unsent(*final(buf)) == unsent(*old(buf)) + old(self).pending().take(n as int)
                &&& final(self).pending() == old(self).pending().skip(n as int)
                &&& room(*final(buf)) == room(*old(buf)) - n
                &&& write_state(*final(buf)) == write_state(*old(buf))
            },
    {
        match &mut self.0 {
            Encoding::Failure(e) => {
                let _ = e.put(buf);
                Ok(())
            },
            Encoding::Reply(inner) => inner.encode_to_write_buf(buf),
        }
    }

    /// Returns `true` if nothing is left to encode, otherwise `false`.
    pub fn is_idle(&self) -> (idle: bool)
        ensures
            self.failure() is Some ==> idle == (self.pending().len() == 0),
    {
        match &self.0 {
            Encoding::Failure(e) => e.is_done(),
            Encoding::Reply(inner) => inner.is_idle(),
        }
    }
}

} // verus!
