//! The byte format of the upload to the transcription service and the
//! reading of its answer.

use vstd::prelude::*;
use vstd::utf8::encode_utf8;
use crate::text::{chars_of, decimal, push_decimal, string_of};

verus! {

/// The boundary that separates the parts of the upload.
pub const BOUNDARY: &'static str = "------------------------boundary";

/// The status that tells success.
pub const HTTP_OK: u16 = 200;

/// The last component of a path: what follows its last `/`, or all of it
/// where it holds none.
pub open spec fn file_name(path: Seq<char>) -> Seq<char>
    decreases path.len(),
{
    if path.len() == 0 || path.last() == '/' {
        seq![]
    } else {
        file_name(path.drop_last()).push(path.last())
    }
}

/// What stands before the file's bytes in the upload.
pub open spec fn multipart_head(boundary: Seq<char>, path: Seq<char>) -> Seq<char> {
    "--"@ + boundary + "\r\n"@ + "Content-Disposition: form-data; name=\"file\"; filename=\""@
        + file_name(path) + "\"\r\n"@ + "Content-Type: audio/wav\r\n\r\n"@
}

/// What stands behind the file's bytes in the upload.
pub open spec fn multipart_tail(boundary: Seq<char>) -> Seq<char> {
    "\r\n"@ + "--"@ + boundary + "--\r\n"@
}

/// The body of the upload of one file: a single part named `file`, of type
/// `audio/wav`, that holds the file's bytes as they are.
pub open spec fn multipart_body(boundary: Seq<char>, path: Seq<char>, data: Seq<u8>) -> Seq<u8> {
    encode_utf8(multipart_head(boundary, path)) + data + encode_utf8(multipart_tail(boundary))
}

/// The value of the content type header of the upload.
pub open spec fn multipart_content_type(boundary: Seq<char>) -> Seq<char> {
    "multipart/form-data; boundary="@ + boundary
}

/// What becomes of an answer: its body where the status tells success, an
/// error text with the status and the body otherwise.
pub open spec fn response_result(status: u16, body: Seq<char>) -> Result<Seq<char>, Seq<char>> {
    if status == HTTP_OK {
        Ok(body)
    } else {
        Err("API error ("@ + decimal(status as nat) + "): "@ + body)
    }
}

proof fn lemma_file_name(path: Seq<char>, from: int)
    requires
        0 <= from <= path.len(),
        forall|i: int| from <= i < path.len() ==> #[trigger] path[i] != '/',
        from == 0 || path[from - 1] == '/',
    ensures
        file_name(path) == path.skip(from),
    decreases path.len(),
{
    if from < path.len() {
        let rest = path.drop_last();
        assert forall|i: int| from <= i < rest.len() implies #[trigger] rest[i] != '/' by {
            assert(rest[i] == path[i]);
        }
        lemma_file_name(rest, from);
        assert(rest.skip(from).push(path.last()) =~= path.skip(from));
    } else {
        assert(path.skip(from) =~= Seq::<char>::empty());
    }
}

/// The last component of `path`.
pub fn file_name_of(path: &str) -> (name: String)
    ensures
        name@ == file_name(path@),
{
    let chars = chars_of(path);
    let mut from: usize = chars.len();
    while from > 0 && chars[from - 1] != '/'
        invariant
            from <= chars.len(),
            forall|i: int| from <= i < chars.len() ==> #[trigger] chars@[i] != '/',
        decreases from,
    {
        from -= 1;
    }
    proof {
        lemma_file_name(chars@, from as int);
    }
    let mut name: Vec<char> = Vec::new();
    let mut i: usize = from;
    while i < chars.len()
        invariant
            from <= i <= chars.len(),
            name@ == chars@.subrange(from as int, i as int),
        decreases chars.len() - i,
    {
        name.push(chars[i]);
        i += 1;
        assert(chars@.subrange(from as int, i as int) =~= chars@.subrange(from as int, i - 1).push(
            chars@[i - 1],
        ));
    }
    assert(name@ =~= chars@.skip(from as int));
    string_of(&name)
}

fn push_bytes(out: &mut Vec<u8>, bytes: &[u8])
    ensures
        final(out)@ == old(out)@ + bytes@,
{
    let mut i: usize = 0;
    assert(out@ =~= old(out)@ + bytes@.take(0));
    while i < bytes.len()
        invariant
            i <= bytes.len(),
            out@ == old(out)@ + bytes@.take(i as int),
        decreases bytes.len() - i,
    {
        out.push(bytes[i]);
        i += 1;
        assert(old(out)@ + bytes@.take(i as int) =~= (old(out)@ + bytes@.take(i - 1)).push(
            bytes@[i - 1],
        ));
    }
    assert(bytes@.take(bytes.len() as int) =~= bytes@);
}

/// Builds the body of the upload of the file at `file_path` with the content
/// `file_data`.
pub fn create_multipart_body(boundary: &str, file_path: &str, file_data: &[u8]) -> (body: Vec<u8>)
    ensures
        body@ == multipart_body(boundary@, file_path@, file_data@),
{
    let name = file_name_of(file_path);
    let mut head = String::from_str("--");
    head.append(boundary);
    head.append("\r\n");
    head.append("Content-Disposition: form-data; name=\"file\"; filename=\"");
    head.append(name.as_str());
    head.append("\"\r\n");
    head.append("Content-Type: audio/wav\r\n\r\n");
    let mut tail = String::from_str("\r\n");
    tail.append("--");
    tail.append(boundary);
    tail.append("--\r\n");
    let mut body: Vec<u8> = Vec::new();
    push_bytes(&mut body, head.as_str().as_bytes());
    push_bytes(&mut body, file_data);
    push_bytes(&mut body, tail.as_str().as_bytes());
    assert(body@ =~= multipart_body(boundary@, file_path@, file_data@));
    body
}

/// An upload, ready to be sent.
#[derive(Debug, Clone, PartialEq, Eq)]
pub struct MultipartRequest {
    /// Value of the `Content-Type` header.
    pub content_type: String,
    /// Value of the `Content-Length` header.
    pub content_length: String,
    pub body: Vec<u8>,
}

/// Prepares the upload of the file at `file_path` with the content
/// `file_data`: the body and the two headers that describe it.
pub fn multipart_request(file_path: &str, file_data: &[u8]) -> (request: MultipartRequest)
    ensures
        request.body@ == multipart_body(BOUNDARY@, file_path@, file_data@),
        request.content_type@ == multipart_content_type(BOUNDARY@),
        request.content_length@ == decimal(request.body@.len()),
{
    let body = create_multipart_body(BOUNDARY, file_path, file_data);
    let mut content_type = String::from_str("multipart/form-data; boundary=");
    content_type.append(BOUNDARY);
    let mut content_length = String::new();
    push_decimal(&mut content_length, body.len() as u64);
    assert(content_length@ =~= decimal(body@.len()));
    MultipartRequest { content_type, content_length, body }
}

/// Reads an answer: its body where the status tells success, an error text
/// otherwise.
pub fn read_response(status: u16, body: String) -> (r: Result<String, String>)
    ensures
        match response_result(status, body@) {
            Ok(text) => r matches Ok(t) && t@ == text,
            Err(text) => r matches Err(e) && e@ == text,
        },
{
    if status == HTTP_OK {
        Ok(body)
    } else {
        let mut text = String::from_str("API error (");
        push_decimal(&mut text, status as u64);
        text.append("): ");
        text.append(body.as_str());
        Err(text)
    }
}

} // verus!
