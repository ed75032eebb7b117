//! The `multipart/form-data` codec: the capture node frames one file with a
//! fixed boundary token, and the ingestion service takes such a body apart
//! into the files it carries.

use crate::bytes::{ascii, ascii_bytes, contains_bytes, find, first_match, matches_at};
use crate::bytes::{occurs_at, push_ascii};
use crate::bytes::lemma_first_match;
use vstd::prelude::*;
use vstd::slice::{slice_subrange, slice_to_vec};

verus! {

/// The boundary token that the capture node and the ingestion service share.
pub const DEFAULT_BOUNDARY: &'static str = "----WebKitFormBoundary7MA4YWxkTrZu0gW";

/// A line break of the wire format: carriage return, line feed.
pub open spec fn crlf() -> Seq<u8> {
    seq![13u8, 10u8]
}

/// Two hyphens, which open every delimiter and close the last one.
pub open spec fn dashes() -> Seq<u8> {
    seq![45u8, 45u8]
}

/// The empty line that ends a part's headers.
pub open spec fn blank_line() -> Seq<u8> {
    seq![13u8, 10u8, 13u8, 10u8]
}

/// The delimiter that opens a body: two hyphens and the boundary.
pub open spec fn delimiter(boundary: Seq<u8>) -> Seq<u8> {
    dashes() + boundary
}

/// The marker that ends a part's content: a line break and the delimiter.
pub open spec fn part_end(boundary: Seq<u8>) -> Seq<u8> {
    crlf() + delimiter(boundary)
}

/// The header text that stands before the file name.
pub open spec fn disposition_head() -> Seq<u8> {
    ascii("Content-Disposition: form-data; name=\"file\"; filename=\""@)
}

/// The header text that stands between the file name and the content.
pub open spec fn disposition_tail() -> Seq<u8> {
    ascii("\"\r\nContent-Type: image/jpeg\r\n\r\n"@)
}

/// What stands between a delimiter and a part's content: the line break
/// after the delimiter and the headers with their empty line.
pub open spec fn part_headers(filename: Seq<u8>) -> Seq<u8> {
    crlf() + disposition_head() + filename + disposition_tail()
}

/// What stands before the content: the opening delimiter and the headers.
pub open spec fn preamble(boundary: Seq<u8>, filename: Seq<u8>) -> Seq<u8> {
    delimiter(boundary) + part_headers(filename)
}

/// What stands after the content: the closing delimiter and a line break.
pub open spec fn closing(boundary: Seq<u8>) -> Seq<u8> {
    part_end(boundary) + dashes() + crlf()
}

/// The body that carries one file, byte for byte.
pub open spec fn encoded(boundary: Seq<u8>, filename: Seq<u8>, data: Seq<u8>) -> Seq<u8> {
    preamble(boundary, filename) + data + closing(boundary)
}

/// A file name that survives quoting in a header line: it holds neither a
/// double quote nor a line break.
pub open spec fn quotable(filename: Seq<u8>) -> bool {
    &&& forall|i: int| 0 <= i < filename.len() ==> filename[i] != 34
    &&& forall|i: int| !matches_at(filename, crlf(), i)
}

/// What follows a delimiter in a body that carries the given files one after
/// another: each file's headers and content, the delimiter again, and after
/// the last file the two hyphens that close the body.
pub open spec fn framed(boundary: Seq<u8>, parts: Seq<PartModel>) -> Seq<u8>
    decreases parts.len(),
{
    if parts.len() == 0 {
        dashes() + crlf()
    } else {
        part_headers(parts[0].filename) + parts[0].data + part_end(boundary) + framed(
            boundary,
            parts.drop_first(),
        )
    }
}

/// The body that carries the given files, in order.
pub open spec fn encoded_all(boundary: Seq<u8>, parts: Seq<PartModel>) -> Seq<u8> {
    delimiter(boundary) + framed(boundary, parts)
}

/// Files that can be framed under `boundary` and read back: every name
/// survives quoting, and the content-ending marker occurs in no content.
pub open spec fn framable(boundary: Seq<u8>, parts: Seq<PartModel>) -> bool {
    forall|i: int|
        0 <= i < parts.len() ==> quotable(#[trigger] parts[i].filename) && !contains_bytes(
            parts[i].data,
            part_end(boundary),
        )
}

/// Content whose end the decoder finds where the encoder put it: followed by
/// the closing delimiter, the content-ending marker occurs at no index inside
/// the content.
pub open spec fn ends_cleanly(boundary: Seq<u8>, data: Seq<u8>) -> bool {
    forall|j: int|
        0 <= j < data.len() ==> !matches_at(data + closing(boundary), part_end(boundary), j)
}

/// Frames `data` as the single file `filename` of a multipart body.
pub fn encode(boundary: &[u8], filename: &[u8], data: &[u8]) -> (body: Vec<u8>)
    ensures
        body@ == encoded(boundary@, filename@, data@),
{
    let mut body: Vec<u8> = Vec::new();
    proof {
        reveal_strlit("--");
        reveal_strlit("\r\n");
        reveal_strlit("Content-Disposition: form-data; name=\"file\"; filename=\"");
        reveal_strlit("\"\r\nContent-Type: image/jpeg\r\n\r\n");
        reveal_strlit("\r\n--");
        reveal_strlit("--\r\n");
    }
    push_ascii(&mut body, "--");
    body.extend_from_slice(boundary);
    push_ascii(&mut body, "\r\n");
    push_ascii(&mut body, "Content-Disposition: form-data; name=\"file\"; filename=\"");
    body.extend_from_slice(filename);
    push_ascii(&mut body, "\"\r\nContent-Type: image/jpeg\r\n\r\n");
    body.extend_from_slice(data);
    push_ascii(&mut body, "\r\n--");
    body.extend_from_slice(boundary);
    push_ascii(&mut body, "--\r\n");
    assert(ascii("--"@) =~= dashes());
    assert(ascii("\r\n"@) =~= crlf());
    assert(ascii("\r\n--"@) =~= crlf() + dashes());
    assert(ascii("--\r\n"@) =~= dashes() + crlf());
    assert(body@ =~= encoded(boundary@, filename@, data@));
    body
}

/// One file taken out of a multipart body.
#[derive(Clone, Debug, PartialEq, Eq)]
pub struct Part {
    pub filename: Vec<u8>,
    pub data: Vec<u8>,
}

/// What a `Part` holds, as sequences.
pub struct PartModel {
    pub filename: Seq<u8>,
    pub data: Seq<u8>,
}

impl View for Part {
    type V = PartModel;

    open spec fn view(&self) -> PartModel {
        PartModel { filename: self.filename@, data: self.data@ }
    }
}

/// The models of a sequence of parts, in order.
pub open spec fn parts_view(parts: Seq<Part>) -> Seq<PartModel> {
    parts.map_values(|p: Part| p@)
}

/// Why a body could not be taken apart.
#[derive(Clone, Copy, Debug, PartialEq, Eq, Structural)]
pub enum DecodeError {
    /// The body does not open with two hyphens and the boundary.
    MissingOpeningBoundary,
    /// A delimiter is followed neither by a line break nor by two hyphens.
    MalformedDelimiter,
    /// A part's headers are not ended by an empty line.
    UnterminatedHeaders,
    /// A part has no `Content-Disposition` header with a quoted `filename`.
    MissingFilename,
    /// A part's content is not ended by a delimiter.
    UnterminatedPart,
}

/// An upper-case ASCII letter as lower case; any other byte unchanged.
pub open spec fn lower(b: u8) -> u8 {
    if 65 <= b <= 90 {
        (b + 32) as u8
    } else {
        b
    }
}

/// The name of the header that carries the file name, in lower case, with its
/// colon.
pub open spec fn header_name() -> Seq<u8> {
    ascii("content-disposition:"@)
}

/// The attribute key that stands before a quoted file name.
pub open spec fn filename_key() -> Seq<u8> {
    ascii("filename=\""@)
}

/// A double quote.
pub open spec fn quote() -> Seq<u8> {
    seq![34u8]
}

/// The line is a `Content-Disposition` header; the name is matched without
/// regard to case.
pub open spec fn is_disposition(line: Seq<u8>) -> bool {
    &&& line.len() >= header_name().len()
    &&& forall|i: int| 0 <= i < header_name().len() ==> lower(#[trigger] line[i]) == header_name()[i]
}

/// The quoted value of the first `filename` attribute of a
/// `Content-Disposition` line.
pub open spec fn filename_attr(line: Seq<u8>) -> Option<Seq<u8>> {
    match first_match(line, filename_key(), header_name().len() as int) {
        None => None,
        Some(p) => {
            let start = p + filename_key().len();
            match first_match(line, quote(), start) {
                None => None,
                Some(q) => Some(line.subrange(start, q)),
            }
        },
    }
}

/// The file name that a block of header lines gives: that of its first
/// `Content-Disposition` line.
pub open spec fn header_filename(headers: Seq<u8>) -> Option<Seq<u8>>
    decreases headers.len(),
    via header_filename_ends
{
    match first_match(headers, crlf(), 0) {
        None => if is_disposition(headers) {
            filename_attr(headers)
        } else {
            None
        },
        Some(e) => {
            let line = headers.subrange(0, e);
            if is_disposition(line) {
                filename_attr(line)
            } else {
                header_filename(headers.subrange(e + 2, headers.len() as int))
            }
        },
    }
}

#[via_fn]
proof fn header_filename_ends(headers: Seq<u8>) {
    lemma_first_match(headers, crlf(), 0);
}

/// The header lines of the part that follows the delimiter ending at `pos`,
/// given that its empty line starts at `blank`.
pub open spec fn header_block(body: Seq<u8>, pos: int, blank: int) -> Seq<u8> {
    if pos + 2 <= blank {
        body.subrange(pos + 2, blank)
    } else {
        Seq::empty()
    }
}

/// The parts that follow a delimiter ending at `pos`, up to the closing
/// delimiter; what follows that one is ignored.
pub open spec fn parts_from(body: Seq<u8>, boundary: Seq<u8>, pos: int) -> Result<
    Seq<PartModel>,
    DecodeError,
>
    decreases body.len() - pos,
    via parts_from_ends
{
    if matches_at(body, dashes(), pos) {
        Ok(Seq::empty())
    } else if !matches_at(body, crlf(), pos) {
        Err(DecodeError::MalformedDelimiter)
    } else {
        match first_match(body, blank_line(), pos) {
            None => Err(DecodeError::UnterminatedHeaders),
            Some(blank) => match header_filename(header_block(body, pos, blank)) {
                None => Err(DecodeError::MissingFilename),
                Some(filename) => match first_match(body, part_end(boundary), blank + 4) {
                    None => Err(DecodeError::UnterminatedPart),
                    Some(end) => match parts_from(
                        body,
                        boundary,
                        end + part_end(boundary).len(),
                    ) {
                        Err(e) => Err(e),
                        Ok(rest) => Ok(
                            seq![PartModel { filename, data: body.subrange(blank + 4, end) }]
                                + rest,
                        ),
                    },
                },
            },
        }
    }
}

#[via_fn]
proof fn parts_from_ends(body: Seq<u8>, boundary: Seq<u8>, pos: int) {
    if matches_at(body, crlf(), pos) {
        lemma_first_match(body, blank_line(), pos);
        match first_match(body, blank_line(), pos) {
            Some(blank) => {
                lemma_first_match(body, part_end(boundary), blank + 4);
            },
            None => {},
        }
    }
}

/// The files that a body carries under `boundary`, or why it carries none.
pub open spec fn decoded(body: Seq<u8>, boundary: Seq<u8>) -> Result<Seq<PartModel>, DecodeError> {
    if matches_at(body, delimiter(boundary), 0) {
        parts_from(body, boundary, delimiter(boundary).len() as int)
    } else {
        Err(DecodeError::MissingOpeningBoundary)
    }
}

fn to_lower(b: u8) -> (r: u8)
    ensures
        r == lower(b),
{
    if 65 <= b && b <= 90 {
        b + 32
    } else {
        b
    }
}

fn is_disposition_line(line: &[u8]) -> (r: bool)
    ensures
        r == is_disposition(line@),
{
    proof {
        reveal_strlit("content-disposition:");
    }
    let name = ascii_bytes("content-disposition:");
    if line.len() < name.len() {
        return false;
    }
    let mut i: usize = 0;
    while i < name.len()
        invariant
            i <= name.len() <= line.len(),
            name@ == header_name(),
            forall|k: int| 0 <= k < i ==> lower(#[trigger] line@[k]) == header_name()[k],
        decreases name.len() - i,
    {
        if to_lower(line[i]) != name[i] {
            return false;
        }
        i = i + 1;
    }
    true
}

fn filename_of_line(line: &[u8]) -> (r: Option<Vec<u8>>)
    ensures
        match r {
            Some(name) => filename_attr(line@) == Some(name@),
            None => filename_attr(line@) is None,
        },
{
    proof {
        reveal_strlit("content-disposition:");
        reveal_strlit("filename=\"");
        reveal_strlit("\"");
    }
    let key = ascii_bytes("filename=\"");
    let mark = ascii_bytes("\"");
    assert(mark@ =~= quote());
    match find(line, key.as_slice(), 20) {
        None => None,
        Some(p) => {
            proof {
                lemma_first_match(line@, filename_key(), 20);
                assert(p + key.len() <= line.len());
            }
            let start: usize = p + key.len();
            match find(line, mark.as_slice(), start) {
                None => None,
                Some(q) => {
                    proof {
                        lemma_first_match(line@, quote(), start as int);
                    }
                    Some(slice_to_vec(slice_subrange(line, start, q)))
                },
            }
        },
    }
}

fn filename_of_headers(headers: &[u8]) -> (r: Option<Vec<u8>>)
    ensures
        match r {
            Some(name) => header_filename(headers@) == Some(name@),
            None => header_filename(headers@) is None,
        },
{
    proof {
        reveal_strlit("\r\n");
    }
    let line_break = ascii_bytes("\r\n");
    assert(line_break@ =~= crlf());
    let mut rest: &[u8] = headers;
    loop
        invariant
            line_break@ == crlf(),
            header_filename(headers@) == header_filename(rest@),
        decreases rest.len(),
    {
        match find(rest, line_break.as_slice(), 0) {
            None => {
                if is_disposition_line(rest) {
                    return filename_of_line(rest);
                } else {
                    return None;
                }
            },
            Some(e) => {
                proof {
                    lemma_first_match(rest@, crlf(), 0);
                }
                let line = slice_subrange(rest, 0, e);
                if is_disposition_line(line) {
                    return filename_of_line(line);
                }
                rest = slice_subrange(rest, e + 2, rest.len());
            },
        }
    }
}

/// Takes a multipart body apart into the files it carries.
///
/// The body must open with the delimiter. Each part gives its file name in
/// the first `Content-Disposition` header line and its content between the
/// empty line and the next delimiter. Whatever follows the closing delimiter
/// is ignored. The first fault met, reading from the start, is the one
/// reported, and then no part is returned.
pub fn decode(body: &[u8], boundary: &[u8]) -> (r: Result<Vec<Part>, DecodeError>)
    ensures
        match r {
            Ok(parts) => decoded(body@, boundary@) == Ok::<Seq<PartModel>, DecodeError>(
                parts_view(parts@),
            ),
            Err(e) => decoded(body@, boundary@) == Err::<Seq<PartModel>, DecodeError>(e),
        },
{
    proof {
        reveal_strlit("--");
        reveal_strlit("\r\n");
        reveal_strlit("\r\n\r\n");
        reveal_strlit("\r\n--");
    }
    let two_dashes = ascii_bytes("--");
    let line_break = ascii_bytes("\r\n");
    let empty_line = ascii_bytes("\r\n\r\n");
    let mut opening = ascii_bytes("--");
    opening.extend_from_slice(boundary);
    let mut ending = ascii_bytes("\r\n--");
    ending.extend_from_slice(boundary);
    assert(two_dashes@ =~= dashes());
    assert(line_break@ =~= crlf());
    assert(empty_line@ =~= blank_line());
    assert(opening@ =~= delimiter(boundary@));
    assert(ending@ =~= part_end(boundary@));
    if !occurs_at(body, opening.as_slice(), 0) {
        return Err(DecodeError::MissingOpeningBoundary);
    }
    let mut parts: Vec<Part> = Vec::new();
    let mut pos: usize = opening.len();
    loop
        invariant
            two_dashes@ == dashes(),
            line_break@ == crlf(),
            empty_line@ == blank_line(),
            ending@ == part_end(boundary@),
            pos <= body.len(),
            decoded(body@, boundary@) == match parts_from(body@, boundary@, pos as int) {
                Ok(rest) => Ok::<Seq<PartModel>, DecodeError>(parts_view(parts@) + rest),
                Err(e) => Err(e),
            },
        decreases body.len() - pos,
    {
        if occurs_at(body, two_dashes.as_slice(), pos) {
            assert(parts_view(parts@) + Seq::<PartModel>::empty() =~= parts_view(parts@));
            return Ok(parts);
        }
        if !occurs_at(body, line_break.as_slice(), pos) {
            return Err(DecodeError::MalformedDelimiter);
        }
        let blank: usize = match find(body, empty_line.as_slice(), pos) {
            None => {
                return Err(DecodeError::UnterminatedHeaders);
            },
            Some(blank) => blank,
        };
        proof {
            lemma_first_match(body@, blank_line(), pos as int);
        }
        let headers: &[u8] = if pos + 2 <= blank {
            slice_subrange(body, pos + 2, blank)
        } else {
            slice_subrange(body, 0, 0)
        };
        assert(headers@ =~= header_block(body@, pos as int, blank as int));
        let filename: Vec<u8> = match filename_of_headers(headers) {
            None => {
                return Err(DecodeError::MissingFilename);
            },
            Some(filename) => filename,
        };
        let end: usize = match find(body, ending.as_slice(), blank + 4) {
            None => {
                return Err(DecodeError::UnterminatedPart);
            },
            Some(end) => end,
        };
        proof {
            lemma_first_match(body@, part_end(boundary@), blank + 4);
        }
        let data: Vec<u8> = slice_to_vec(slice_subrange(body, blank + 4, end));
        let ghost before = parts_view(parts@);
        let part = Part { filename, data };
        parts.push(part);
        let next: usize = end + ending.len();
        proof {
            assert(parts_view(parts@) =~= before.push(part@));
            match parts_from(body@, boundary@, next as int) {
                Ok(rest) => {
                    assert(before + (seq![part@] + rest) =~= before.push(part@) + rest);
                },
                Err(_) => {},
            }
        }
        pos = next;
    }
}

} // verus!
