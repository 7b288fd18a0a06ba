//! What the bytes of a response tell: the response that they were encoded from.
use crate::response::{
    code_text, decimal, encodable, fields_text, head_text, is_field, is_phrase, response_bytes, utf8,
    version_text, Res,
};
use crate::status::digit_text;
use httpcodec::HttpVersion;
use vstd::prelude::*;

verus! {

/// The bytes of two texts in a row are the bytes of the one and the bytes
/// of the other.
pub proof fn lemma_utf8_of_joined(first: Seq<char>, second: Seq<char>)
    ensures
        utf8(first + second) == utf8(first) + utf8(second),
    decreases first.len(),
{
    if first.len() == 0 {
        assert(first + second =~= second);
        assert(utf8(first) + utf8(second) =~= utf8(second));
    } else {
        assert((first + second).drop_first() =~= first.drop_first() + second);
        lemma_utf8_of_joined(first.drop_first(), second);
        assert(utf8(first + second) =~= utf8(first) + utf8(second));
    }
}

/// Texts with the same bytes are the same text.
pub proof fn lemma_utf8_tells_the_text(first: Seq<char>, second: Seq<char>)
    requires
        utf8(first) == utf8(second),
    ensures
        first == second,
{
    vstd::utf8::encode_utf8_decode_utf8(first);
    vstd::utf8::encode_utf8_decode_utf8(second);
}

/// Whether `text` is a line without its end: it has a character, and none
/// that is part of a line break.
pub open spec fn is_line(text: Seq<char>) -> bool {
    &&& text.len() > 0
    &&& forall|i: int| 0 <= i < text.len() ==> (#[trigger] text[i]) != '\r' && text[i] != '\n'
}

/// Whether no line of `text` but the last is empty: no line feed is
/// followed by a carriage return.
pub open spec fn has_no_empty_line(text: Seq<char>) -> bool {
    forall|i: int|
        0 <= i && i + 1 < text.len() && (#[trigger] text[i]) == '\n' ==> text[i + 1] != '\r'
}

/// A line that is added to a text without an empty line leaves it without one.
pub proof fn lemma_line_added(text: Seq<char>, line: Seq<char>)
    requires
        has_no_empty_line(text),
        is_line(line),
    ensures
        has_no_empty_line(text + line + "\r\n"@),
{
    reveal_strlit("\r\n");
    let all = text + line + "\r\n"@;
    assert forall|i: int| 0 <= i && i + 1 < all.len() && (#[trigger] all[i]) == '\n' implies all[i
        + 1] != '\r' by {
        if i + 1 < text.len() {
            assert(all[i] == text[i]);
            assert(all[i + 1] == text[i + 1]);
        } else if i < text.len() {
            assert(all[i + 1] == line[0]);
        } else if i < text.len() + line.len() {
            assert(all[i] == line[i - text.len()]);
        } else {
            assert(all[i] == '\r');
        }
    }
}

/// A decimal digit is one character, which tells the digit.
pub proof fn lemma_digit_text(d: int)
    ensures
        digit_text(d).len() == 1,
        '0' <= digit_text(d)[0] <= '9',
        0 <= d <= 9 ==> digit_text(d)[0] as int == '0' as int + d,
{
    reveal_strlit("0");
    reveal_strlit("1");
    reveal_strlit("2");
    reveal_strlit("3");
    reveal_strlit("4");
    reveal_strlit("5");
    reveal_strlit("6");
    reveal_strlit("7");
    reveal_strlit("8");
    reveal_strlit("9");
}

/// A number in decimal digits is a line.
pub proof fn lemma_decimal_is_line(n: nat)
    ensures
        is_line(decimal(n)),
    decreases n,
{
    if n < 10 {
        lemma_digit_text(n as int);
    } else {
        lemma_decimal_is_line(n / 10);
        lemma_digit_text((n % 10) as int);
        let text = decimal(n);
        assert forall|i: int| 0 <= i < text.len() implies (#[trigger] text[i]) != '\r' && text[i]
            != '\n' by {
            if i < decimal(n / 10).len() {
                assert(text[i] == decimal(n / 10)[i]);
            } else {
                assert(text[i] == digit_text((n % 10) as int)[0]);
            }
        }
    }
}

/// The status line of a response, without its end.
pub open spec fn status_line(version: HttpVersion, status_code: u16, reason_phrase: Seq<char>) -> Seq<
    char,
> {
    version_text(version) + " "@ + code_text(status_code) + " "@ + reason_phrase
}

/// The status line is a line: thirteen characters, and the reason phrase.
pub proof fn lemma_status_line_is_line(
    version: HttpVersion,
    status_code: u16,
    reason_phrase: Seq<char>,
)
    requires
        is_phrase(reason_phrase),
    ensures
        is_line(status_line(version, status_code, reason_phrase)),
        status_line(version, status_code, reason_phrase).len() == 13 + reason_phrase.len(),
{
    reveal_strlit("HTTP/1.0");
    reveal_strlit("HTTP/1.1");
    reveal_strlit(" ");
    lemma_digit_text(status_code as int / 100 % 10);
    lemma_digit_text(status_code as int / 10 % 10);
    lemma_digit_text(status_code as int % 10);
    let line = status_line(version, status_code, reason_phrase);
    let code = code_text(status_code);
    assert(code.len() == 3);
    assert forall|i: int| 0 <= i < line.len() implies (#[trigger] line[i]) != '\r' && line[i]
        != '\n' by {
        if i < 8 {
            assert(line[i] == version_text(version)[i]);
        } else if i == 8 {
            assert(line[i] == ' ');
        } else if i < 12 {
            assert(line[i] == code[i - 9]);
        } else if i == 12 {
            assert(line[i] == ' ');
        } else {
            assert(line[i] == reason_phrase[i - 13]);
        }
    }
}

/// The line of a header field, without its end.
pub open spec fn field_line(field: (Seq<char>, Seq<char>)) -> Seq<char> {
    field.0 + ": "@ + field.1
}

/// The line of a header field is a line.
pub proof fn lemma_field_line_is_line(field: (Seq<char>, Seq<char>))
    requires
        is_field(field),
    ensures
        is_line(field_line(field)),
{
    reveal_strlit(": ");
    let line = field_line(field);
    assert forall|i: int| 0 <= i < line.len() implies (#[trigger] line[i]) != '\r' && line[i]
        != '\n' by {
        if i < field.0.len() {
            assert(line[i] == field.0[i]);
        } else if i < field.0.len() + 2 {
            assert(line[i] == ": "@[i - field.0.len()]);
        } else {
            assert(line[i] == field.1[i - field.0.len() - 2]);
        }
    }
}

/// The lines of header fields that are added to a text without an empty
/// line leave it without one.
pub proof fn lemma_fields_added(text: Seq<char>, header: Seq<(Seq<char>, Seq<char>)>)
    requires
        has_no_empty_line(text),
        forall|i: int| 0 <= i < header.len() ==> is_field(#[trigger] header[i]),
    ensures
        has_no_empty_line(text + fields_text(header)),
    decreases header.len(),
{
    if header.len() == 0 {
        assert(text + fields_text(header) =~= text);
    } else {
        let before = header.drop_last();
        assert forall|i: int| 0 <= i < before.len() implies is_field(#[trigger] before[i]) by {
            assert(before[i] == header[i]);
        }
        lemma_fields_added(text, before);
        lemma_field_line_is_line(header.last());
        lemma_line_added(text + fields_text(before), field_line(header.last()));
        assert(text + fields_text(header) =~= text + fields_text(before) + field_line(header.last())
            + "\r\n"@);
    }
}

/// Whether an empty line ends at the index `end` of `text`: the four
/// characters before it are two line breaks.
pub open spec fn empty_line_ends_at(text: Seq<char>, end: int) -> bool {
    &&& 4 <= end <= text.len()
    &&& text[end - 4] == '\r'
    &&& text[end - 3] == '\n'
    &&& text[end - 2] == '\r'
    &&& text[end - 1] == '\n'
}

/// The line that tells the length of the body, without its end.
pub open spec fn length_line(length: nat) -> Seq<char> {
    "Content-Length: "@ + decimal(length)
}

/// The head of a response ends with its one empty line.
pub proof fn lemma_head_ends_with_its_empty_line(
    version: HttpVersion,
    status_code: u16,
    reason_phrase: Seq<char>,
    header: Seq<(Seq<char>, Seq<char>)>,
    length: nat,
)
    requires
        encodable(status_code, reason_phrase, header),
    ensures
        ({
            let head = head_text(version, status_code, reason_phrase, header, length);
            &&& empty_line_ends_at(head, head.len() as int)
            &&& forall|end: int| 0 <= end < head.len() ==> !empty_line_ends_at(head, end)
        }),
{
    reveal_strlit("\r\n");
    reveal_strlit("\r\n\r\n");
    reveal_strlit("Content-Length: ");
    let head = head_text(version, status_code, reason_phrase, header, length);
    let first = Seq::<char>::empty() + status_line(version, status_code, reason_phrase) + "\r\n"@;
    lemma_status_line_is_line(version, status_code, reason_phrase);
    lemma_line_added(Seq::empty(), status_line(version, status_code, reason_phrase));
    lemma_fields_added(first, header);
    let fields = first + fields_text(header);
    lemma_decimal_is_line(length);
    let line = length_line(length);
    assert(is_line(line)) by {
        assert forall|i: int| 0 <= i < line.len() implies (#[trigger] line[i]) != '\r' && line[i]
            != '\n' by {
            if i < 16 {
                assert(line[i] == "Content-Length: "@[i]);
            } else {
                assert(line[i] == decimal(length)[i - 16]);
            }
        }
    }
    lemma_line_added(fields, line);
    let lines = fields + line + "\r\n"@;
    assert(head =~= lines + "\r\n"@);
    assert(lines.len() >= 2);
    assert(lines[lines.len() - 2] == '\r');
    assert(lines[lines.len() - 1] == '\n');
    assert forall|end: int| 0 <= end < head.len() implies !empty_line_ends_at(head, end) by {
        if empty_line_ends_at(head, end) {
            assert(head[end - 3] == lines[end - 3]);
            assert(head[end - 2] == lines[end - 2]);
        }
    }
}

/// Two texts that are the same, and that begin each with a head that ends
/// with its one empty line, have the same head, and the same behind it.
pub proof fn lemma_heads_end_alike(
    head: Seq<char>,
    rest: Seq<char>,
    other_head: Seq<char>,
    other_rest: Seq<char>,
)
    requires
        head + rest == other_head + other_rest,
        empty_line_ends_at(head, head.len() as int),
        forall|end: int| 0 <= end < head.len() ==> !empty_line_ends_at(head, end),
        empty_line_ends_at(other_head, other_head.len() as int),
        forall|end: int| 0 <= end < other_head.len() ==> !empty_line_ends_at(other_head, end),
    ensures
        head == other_head,
        rest == other_rest,
{
    let all = head + rest;
    let n: int = head.len() as int;
    let m: int = other_head.len() as int;
    assert(all[n - 4] == head[n - 4] && all[n - 3] == head[n - 3] && all[n - 2] == head[n - 2]
        && all[n - 1] == head[n - 1]);
    assert(all[m - 4] == other_head[m - 4] && all[m - 3] == other_head[m - 3] && all[m - 2]
        == other_head[m - 2] && all[m - 1] == other_head[m - 1]);
    if n < m {
        assert(all[n - 4] == other_head[n - 4] && all[n - 3] == other_head[n - 3] && all[n - 2]
            == other_head[n - 2] && all[n - 1] == other_head[n - 1]);
        assert(empty_line_ends_at(other_head, n));
    }
    if m < n {
        assert(all[m - 4] == head[m - 4] && all[m - 3] == head[m - 3] && all[m - 2] == head[m - 2]
            && all[m - 1] == head[m - 1]);
        assert(empty_line_ends_at(head, m));
    }
    assert(n == m);
    assert forall|i: int| 0 <= i < n implies head[i] == other_head[i] by {
        assert(all[i] == head[i]);
        assert(all[i] == other_head[i]);
    }
    assert(head =~= other_head);
    assert(all.len() == n + rest.len());
    assert(all.len() == m + other_rest.len());
    assert forall|i: int| 0 <= i < rest.len() implies rest[i] == other_rest[i] by {
        assert(all[n + i] == rest[i]);
        assert(all[m + i] == other_rest[i]);
    }
    assert(rest =~= other_rest);
}

/// The lines of header fields tell the header fields.
pub proof fn lemma_fields_text_tells_the_fields(
    header: Seq<(Seq<char>, Seq<char>)>,
    other: Seq<(Seq<char>, Seq<char>)>,
)
    requires
        forall|i: int| 0 <= i < header.len() ==> is_field(#[trigger] header[i]),
        forall|i: int| 0 <= i < other.len() ==> is_field(#[trigger] other[i]),
        fields_text(header) == fields_text(other),
    ensures
        header == other,
    decreases header.len(),
{
    reveal_strlit(": ");
    reveal_strlit("\r\n");
    if header.len() == 0 || other.len() == 0 {
        if header.len() > 0 {
            assert(fields_text(header).len() >= 2);
        }
        if other.len() > 0 {
            assert(fields_text(other).len() >= 2);
        }
        assert(header =~= other);
    } else {
        let text = fields_text(header);
        let len: int = text.len() as int;
        let before = fields_text(header.drop_last());
        let other_before = fields_text(other.drop_last());
        let (name, value) = header.last();
        let (other_name, other_value) = other.last();
        assert(is_field(header.last()));
        assert(is_field(other.last()));
        assert(before.len() == 0 || before.last() == '\n') by {
            if header.drop_last().len() > 0 {
            }
        }
        assert(other_before.len() == 0 || other_before.last() == '\n') by {
            if other.drop_last().len() > 0 {
            }
        }
        assert(text == before + name + ": "@ + value + "\r\n"@);
        assert(text == other_before + other_name + ": "@ + other_value + "\r\n"@);
        assert(len == before.len() + name.len() + value.len() + 4);
        assert(len == other_before.len() + other_name.len() + other_value.len() + 4);
        // the values end where the lines end
        if value.len() < other_value.len() {
            let at: int = len - 3 - value.len();
            assert(text[at] == ' ');
            assert(text[at] == other_value[at - (len - 2 - other_value.len())]);
        }
        if other_value.len() < value.len() {
            let at: int = len - 3 - other_value.len();
            assert(text[at] == ' ');
            assert(text[at] == value[at - (len - 2 - value.len())]);
        }
        assert(value.len() == other_value.len());
        assert forall|i: int| 0 <= i < value.len() implies value[i] == other_value[i] by {
            assert(text[len - 2 - value.len() + i] == value[i]);
            assert(text[len - 2 - value.len() + i] == other_value[i]);
        }
        assert(value =~= other_value);
        // the names begin where the lines before them end
        if name.len() < other_name.len() {
            let at: int = before.len() - 1;
            assert(text[at] == before[at]);
            assert(text[at] == other_name[at - other_before.len()]);
        }
        if other_name.len() < name.len() {
            let at: int = other_before.len() - 1;
            assert(text[at] == other_before[at]);
            assert(text[at] == name[at - before.len()]);
        }
        assert(name.len() == other_name.len());
        assert forall|i: int| 0 <= i < name.len() implies name[i] == other_name[i] by {
            assert(text[before.len() + i] == name[i]);
            assert(text[before.len() + i] == other_name[i]);
        }
        assert(name =~= other_name);
        assert forall|i: int| 0 <= i < before.len() implies before[i] == other_before[i] by {
            assert(text[i] == before[i]);
            assert(text[i] == other_before[i]);
        }
        assert(before =~= other_before);
        assert forall|i: int| 0 <= i < header.drop_last().len() implies is_field(
            #[trigger] header.drop_last()[i],
        ) by {
            assert(header.drop_last()[i] == header[i]);
        }
        assert forall|i: int| 0 <= i < other.drop_last().len() implies is_field(
            #[trigger] other.drop_last()[i],
        ) by {
            assert(other.drop_last()[i] == other[i]);
        }
        lemma_fields_text_tells_the_fields(header.drop_last(), other.drop_last());
        assert(header =~= header.drop_last().push(header.last()));
        assert(other =~= other.drop_last().push(other.last()));
    }
}

/// The head of a response tells its status line and its header fields.
pub proof fn lemma_head_tells_its_parts(
    version: HttpVersion,
    status_code: u16,
    reason_phrase: Seq<char>,
    header: Seq<(Seq<char>, Seq<char>)>,
    other_version: HttpVersion,
    other_code: u16,
    other_phrase: Seq<char>,
    other_header: Seq<(Seq<char>, Seq<char>)>,
    length: nat,
)
    requires
        encodable(status_code, reason_phrase, header),
        encodable(other_code, other_phrase, other_header),
        head_text(version, status_code, reason_phrase, header, length) == head_text(
            other_version,
            other_code,
            other_phrase,
            other_header,
            length,
        ),
    ensures
        version == other_version,
        status_code == other_code,
        reason_phrase == other_phrase,
        header == other_header,
{
    reveal_strlit("HTTP/1.0");
    reveal_strlit("HTTP/1.1");
    reveal_strlit(" ");
    reveal_strlit("\r\n");
    let head = head_text(version, status_code, reason_phrase, header, length);
    let line = status_line(version, status_code, reason_phrase);
    let other_line = status_line(other_version, other_code, other_phrase);
    lemma_status_line_is_line(version, status_code, reason_phrase);
    lemma_status_line_is_line(other_version, other_code, other_phrase);
    let fields = fields_text(header);
    let other_fields = fields_text(other_header);
    let tail = length_line(length) + "\r\n\r\n"@;
    let start = line + "\r\n"@ + fields;
    let other_start = other_line + "\r\n"@ + other_fields;
    assert(head =~= start + tail);
    assert(head =~= other_start + tail);
    assert(start.len() == other_start.len());
    assert forall|i: int| 0 <= i < start.len() implies start[i] == other_start[i] by {
        assert(head[i] == start[i]);
        assert(head[i] == other_start[i]);
    }
    assert(start =~= other_start);
    // the version
    assert(start[7] == version_text(version)[7]);
    assert(other_start[7] == version_text(other_version)[7]);
    // the status code
    lemma_digit_text(status_code as int / 100 % 10);
    lemma_digit_text(status_code as int / 10 % 10);
    lemma_digit_text(status_code as int % 10);
    lemma_digit_text(other_code as int / 100 % 10);
    lemma_digit_text(other_code as int / 10 % 10);
    lemma_digit_text(other_code as int % 10);
    assert(start[9] == digit_text(status_code as int / 100 % 10)[0]);
    assert(start[10] == digit_text(status_code as int / 10 % 10)[0]);
    assert(start[11] == digit_text(status_code as int % 10)[0]);
    assert(other_start[9] == digit_text(other_code as int / 100 % 10)[0]);
    assert(other_start[10] == digit_text(other_code as int / 10 % 10)[0]);
    assert(other_start[11] == digit_text(other_code as int % 10)[0]);
    assert(status_code == other_code);
    // the reason phrase ends where the line ends
    if reason_phrase.len() < other_phrase.len() {
        let at: int = reason_phrase.len() as int + 13;
        assert(start[at] == '\r');
        assert(other_start[at] == other_phrase[at - 13]);
    }
    if other_phrase.len() < reason_phrase.len() {
        let at: int = other_phrase.len() as int + 13;
        assert(other_start[at] == '\r');
        assert(start[at] == reason_phrase[at - 13]);
    }
    assert(reason_phrase.len() == other_phrase.len());
    assert forall|i: int| 0 <= i < reason_phrase.len() implies reason_phrase[i] == other_phrase[i] by {
        assert(start[13 + i] == reason_phrase[i]);
        assert(other_start[13 + i] == other_phrase[i]);
    }
    assert(reason_phrase =~= other_phrase);
    // the header fields
    assert forall|i: int| 0 <= i < fields.len() implies fields[i] == other_fields[i] by {
        assert(start[line.len() + 2 + i] == fields[i]);
        assert(other_start[other_line.len() + 2 + i] == other_fields[i]);
    }
    assert(fields =~= other_fields);
    lemma_fields_text_tells_the_fields(header, other_header);
}

/// The bytes of a response tell the response: two responses that the codec
/// takes, and that are encoded to the same bytes, have the same version,
/// status code, reason phrase, header fields and body.
pub proof fn lemma_bytes_tell_the_response(
    version: HttpVersion,
    status_code: u16,
    reason_phrase: Seq<char>,
    header: Seq<(Seq<char>, Seq<char>)>,
    body: Seq<char>,
    other_version: HttpVersion,
    other_code: u16,
    other_phrase: Seq<char>,
    other_header: Seq<(Seq<char>, Seq<char>)>,
    other_body: Seq<char>,
)
    requires
        encodable(status_code, reason_phrase, header),
        encodable(other_code, other_phrase, other_header),
        response_bytes(version, status_code, reason_phrase, header, body) == response_bytes(
            other_version,
            other_code,
            other_phrase,
            other_header,
            other_body,
        ),
    ensures
        version == other_version,
        status_code == other_code,
        reason_phrase == other_phrase,
        header == other_header,
        body == other_body,
{
    let head = head_text(version, status_code, reason_phrase, header, utf8(body).len());
    let other_head = head_text(
        other_version,
        other_code,
        other_phrase,
        other_header,
        utf8(other_body).len(),
    );
    lemma_utf8_of_joined(head, body);
    lemma_utf8_of_joined(other_head, other_body);
    lemma_utf8_tells_the_text(head + body, other_head + other_body);
    lemma_head_ends_with_its_empty_line(
        version,
        status_code,
        reason_phrase,
        header,
        utf8(body).len(),
    );
    lemma_head_ends_with_its_empty_line(
        other_version,
        other_code,
        other_phrase,
        other_header,
        utf8(other_body).len(),
    );
    lemma_heads_end_alike(head, body, other_head, other_body);
    lemma_head_tells_its_parts(
        version,
        status_code,
        reason_phrase,
        header,
        other_version,
        other_code,
        other_phrase,
        other_header,
        utf8(body).len(),
    );
}

/// The parts of a response: its version, status code, reason phrase,
/// header fields and body.
pub type Parts = (HttpVersion, u16, Seq<char>, Seq<(Seq<char>, Seq<char>)>, Seq<char>);

/// What a decoder of responses makes of `bytes`: the parts of a response
/// that the codec takes and that is encoded to them.
pub open spec fn decoded(bytes: Seq<u8>) -> Parts {
    choose|parts: Parts|
        encodable(parts.1, parts.2, parts.3) && response_bytes(
            parts.0,
            parts.1,
            parts.2,
            parts.3,
            parts.4,
        ) == bytes
}

/// What is decoded from the bytes of a response is the response that was
/// encoded: its version, status code, reason phrase, header fields and body.
pub proof fn lemma_decoded_is_what_was_encoded(
    version: HttpVersion,
    status_code: u16,
    reason_phrase: Seq<char>,
    header: Seq<(Seq<char>, Seq<char>)>,
    body: Seq<char>,
)
    requires
        encodable(status_code, reason_phrase, header),
    ensures
        decoded(response_bytes(version, status_code, reason_phrase, header, body)) == (
            version,
            status_code,
            reason_phrase,
            header,
            body,
        ),
{
    let bytes = response_bytes(version, status_code, reason_phrase, header, body);
    let given: Parts = (version, status_code, reason_phrase, header, body);
    assert(encodable(given.1, given.2, given.3) && response_bytes(
        given.0,
        given.1,
        given.2,
        given.3,
        given.4,
    ) == bytes);
    let parts = decoded(bytes);
    lemma_bytes_tell_the_response(
        version,
        status_code,
        reason_phrase,
        header,
        body,
        parts.0,
        parts.1,
        parts.2,
        parts.3,
        parts.4,
    );
}

/// Responses that are encoded to the same bytes are the same response.
pub proof fn lemma_encoded_tells_the_response(res: Res<String>, other: Res<String>)
    requires
        res.spec_encoded() is Some,
        res.spec_encoded() == other.spec_encoded(),
    ensures
        res.spec_version() == other.spec_version(),
        res.spec_status_code() == other.spec_status_code(),
        res.spec_reason_phrase() == other.spec_reason_phrase(),
        res.spec_header() == other.spec_header(),
        res.spec_body()@ == other.spec_body()@,
{
    lemma_bytes_tell_the_response(
        res.spec_version(),
        res.spec_status_code(),
        res.spec_reason_phrase(),
        res.spec_header(),
        res.spec_body()@,
        other.spec_version(),
        other.spec_status_code(),
        other.spec_reason_phrase(),
        other.spec_header(),
        other.spec_body()@,
    );
}

} // verus!
