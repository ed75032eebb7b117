//! Laws of the multipart codec: what was encoded is what is decoded.

use crate::bytes::{contains_bytes, first_match, matches_at};
use crate::bytes::{lemma_first_match_is, lemma_mismatch};
use crate::multipart::{blank_line, closing, crlf, dashes, decoded, delimiter, disposition_head};
use crate::multipart::{disposition_tail, encoded, ends_cleanly, filename_key, header_block};
use crate::multipart::{filename_attr, header_filename, header_name, is_disposition, lower};
use crate::multipart::{part_end, part_headers, parts_from};
use crate::multipart::{encoded_all, framable, framed, quotable};
use crate::multipart::{quote, DecodeError, PartModel};
use vstd::prelude::*;

verus! {

/// An occurrence in a suffix of `s` is an occurrence in `s`, shifted.
proof fn lemma_matches_shift(s: Seq<u8>, pat: Seq<u8>, off: int, i: int)
    requires
        0 <= off <= s.len(),
        0 <= i,
    ensures
        matches_at(s, pat, off + i) == matches_at(s.subrange(off, s.len() as int), pat, i),
{
    let t = s.subrange(off, s.len() as int);
    if i + pat.len() <= t.len() {
        assert(t.subrange(i, i + pat.len()) =~= s.subrange(off + i, off + i + pat.len()));
    }
}

/// The header lines that the encoder writes for a file name, without the
/// empty line that ends them.
spec fn header_lines(filename: Seq<u8>) -> Seq<u8> {
    disposition_head() + filename + disposition_tail().subrange(0, 27)
}

/// The first of those lines: the `Content-Disposition` header.
spec fn disposition_line(filename: Seq<u8>) -> Seq<u8> {
    disposition_head() + filename + quote()
}

/// The first header line ends after the quoted file name.
proof fn lemma_first_line(filename: Seq<u8>)
    requires
        quotable(filename),
    ensures
        first_match(header_lines(filename), crlf(), 0) == Some(56 + filename.len() as int),
        header_lines(filename).subrange(0, 56 + filename.len() as int) == disposition_line(
            filename,
        ),
{
    reveal_strlit("Content-Disposition: form-data; name=\"file\"; filename=\"");
    reveal_strlit("\"\r\nContent-Type: image/jpeg\r\n\r\n");
    let head = disposition_head();
    let tail = disposition_tail();
    let headers = header_lines(filename);
    let line_end: int = 56 + filename.len() as int;
    assert(head.len() == 55);
    assert(tail.len() == 31);
    assert(headers.subrange(line_end, line_end + 2) =~= crlf());
    assert forall|j: int| 0 <= j < line_end implies !matches_at(headers, crlf(), j) by {
        if j < 55 {
            assert(headers[j] == head[j]);
            lemma_mismatch(headers, crlf(), j, 0);
        } else if j < 55 + filename.len() {
            assert(headers[j] == filename[j - 55]);
            if j + 1 < 55 + filename.len() {
                assert(headers[j + 1] == filename[j + 1 - 55]);
                if headers[j] == 13u8 && headers[j + 1] == 10u8 {
                    assert(filename.subrange(j - 55, j - 55 + 2) =~= crlf());
                    assert(matches_at(filename, crlf(), j - 55));
                }
            } else {
                assert(headers[j + 1] == tail[0]);
            }
            if headers[j] != 13u8 {
                lemma_mismatch(headers, crlf(), j, 0);
            } else {
                lemma_mismatch(headers, crlf(), j, 1);
            }
        } else {
            assert(headers[j] == tail[0]);
            lemma_mismatch(headers, crlf(), j, 0);
        }
    }
    lemma_first_match_is(headers, crlf(), 0, line_end);
    assert(headers.subrange(0, line_end) =~= disposition_line(filename));
}

/// The first header line is recognized as the `Content-Disposition` header.
proof fn lemma_line_is_disposition(filename: Seq<u8>)
    ensures
        is_disposition(disposition_line(filename)),
{
    reveal_strlit("Content-Disposition: form-data; name=\"file\"; filename=\"");
    reveal_strlit("content-disposition:");
    let head = disposition_head();
    let line = disposition_line(filename);
    assert(head.len() == 55);
    assert(header_name().len() == 20);
    assert forall|i: int| 0 <= i < 20 implies lower(#[trigger] line[i]) == header_name()[i] by {
        assert(line[i] == head[i]);
    }
}

/// The `Content-Disposition` header gives back the file name that it quotes.
proof fn lemma_line_filename(filename: Seq<u8>)
    requires
        quotable(filename),
    ensures
        filename_attr(disposition_line(filename)) == Some(filename),
{
    reveal_strlit("Content-Disposition: form-data; name=\"file\"; filename=\"");
    reveal_strlit("content-disposition:");
    reveal_strlit("filename=\"");
    let head = disposition_head();
    let line = disposition_line(filename);
    assert(head.len() == 55);
    assert(header_name().len() == 20);
    assert(filename_key().len() == 10);
    assert(forall|i: int| 0 <= i < 55 ==> line[i] == head[i]);
    assert(line.subrange(45, 55) =~= filename_key());
    assert forall|j: int| 20 <= j < 45 implies !matches_at(line, filename_key(), j) by {
        if j == 21 {
            lemma_mismatch(line, filename_key(), j, 1);
        } else if j == 38 {
            lemma_mismatch(line, filename_key(), j, 4);
        } else {
            lemma_mismatch(line, filename_key(), j, 0);
        }
    }
    lemma_first_match_is(line, filename_key(), 20, 45);
    let close_at: int = 55 + filename.len() as int;
    assert(line.subrange(close_at, close_at + 1) =~= quote());
    assert forall|j: int| 55 <= j < close_at implies !matches_at(line, quote(), j) by {
        assert(line[j] == filename[j - 55]);
        lemma_mismatch(line, quote(), j, 0);
    }
    lemma_first_match_is(line, quote(), 55, close_at);
    assert(line.subrange(55, close_at) =~= filename);
}

/// The header lines that the encoder writes give back the file name.
proof fn lemma_header_lines(filename: Seq<u8>)
    requires
        quotable(filename),
    ensures
        header_filename(header_lines(filename)) == Some(filename),
{
    lemma_first_line(filename);
    lemma_line_is_disposition(filename);
    lemma_line_filename(filename);
}

/// The empty line that ends the headers is the first one after the
/// delimiter.
proof fn lemma_blank_line(before: Seq<u8>, filename: Seq<u8>, rest: Seq<u8>)
    requires
        quotable(filename),
    ensures
        ({
            let body = before + part_headers(filename) + rest;
            let pos = before.len() as int;
            let blank = pos + part_headers(filename).len() - 4;
            &&& part_headers(filename).len() == 88 + filename.len()
            &&& !matches_at(body, dashes(), pos)
            &&& matches_at(body, crlf(), pos)
            &&& first_match(body, blank_line(), pos) == Some(blank)
            &&& header_block(body, pos, blank) == header_lines(filename)
        }),
{
    let body = before + part_headers(filename) + rest;
    let pos = before.len() as int;
    assert(part_headers(filename).len() == 88 + filename.len()) by {
        reveal_strlit("Content-Disposition: form-data; name=\"file\"; filename=\"");
        reveal_strlit("\"\r\nContent-Type: image/jpeg\r\n\r\n");
        assert(disposition_head().len() == 55);
        assert(disposition_tail().len() == 31);
    }
    let blank: int = pos + 84 + filename.len();
    assert(body[pos] == 13u8);
    lemma_mismatch(body, dashes(), pos, 0);
    assert(body.subrange(pos, pos + 2) =~= crlf());
    assert(body.subrange(blank, blank + 4) =~= blank_line()) by {
        reveal_strlit("\"\r\nContent-Type: image/jpeg\r\n\r\n");
        let tail = disposition_tail();
        assert(forall|i: int| 27 <= i < 31 ==> body[blank - 27 + i] == tail[i]);
    }
    assert forall|j: int| pos <= j < blank implies !matches_at(body, blank_line(), j) by {
        lemma_line_break_free(filename, j - pos);
        let headers = part_headers(filename);
        assert(body[j] == headers[j - pos]);
        assert(body[j + 1] == headers[j + 1 - pos]);
        assert(body[j + 2] == headers[j + 2 - pos]);
        if body[j] != 13u8 {
            lemma_mismatch(body, blank_line(), j, 0);
        } else if body[j + 1] != 10u8 {
            lemma_mismatch(body, blank_line(), j, 1);
        } else {
            lemma_mismatch(body, blank_line(), j, 2);
        }
    }
    lemma_first_match_is(body, blank_line(), pos, blank);
    assert(header_block(body, pos, blank) =~= header_lines(filename)) by {
        reveal_strlit("Content-Disposition: form-data; name=\"file\"; filename=\"");
        reveal_strlit("\"\r\nContent-Type: image/jpeg\r\n\r\n");
        assert(disposition_head().len() == 55);
        assert(disposition_tail().len() == 31);
    }
}

/// Before the empty line that ends the headers, no line break is followed
/// by another.
proof fn lemma_line_break_free(filename: Seq<u8>, j: int)
    requires
        quotable(filename),
        0 <= j < part_headers(filename).len() - 4,
    ensures
        ({
            let headers = part_headers(filename);
            headers[j] != 13u8 || headers[j + 1] != 10u8 || headers[j + 2] != 13u8
        }),
{
    reveal_strlit("Content-Disposition: form-data; name=\"file\"; filename=\"");
    reveal_strlit("\"\r\nContent-Type: image/jpeg\r\n\r\n");
    let head = disposition_head();
    let tail = disposition_tail();
    let headers = part_headers(filename);
    let name_at: int = 57;
    let tail_at: int = name_at + filename.len();
    assert(head.len() == 55);
    assert(tail.len() == 31);
    if j < 2 {
        assert(headers[2] == head[0]);
    } else if j < name_at {
        assert(headers[j] == head[j - 2]);
    } else if j < tail_at {
        assert(headers[j] == filename[j - name_at]);
        if j + 1 < tail_at {
            assert(headers[j + 1] == filename[j + 1 - name_at]);
            if headers[j] == 13u8 && headers[j + 1] == 10u8 {
                assert(filename.subrange(j - name_at, j - name_at + 2) =~= crlf());
                assert(matches_at(filename, crlf(), j - name_at));
            }
        } else {
            assert(headers[j + 1] == tail[0]);
        }
    } else {
        assert(headers[j] == tail[j - tail_at]);
        assert(headers[j + 2] == tail[j + 2 - tail_at]);
    }
}

/// One file framed after a delimiter is read back from there: its headers,
/// its name, and its content up to the marker that the encoder put after it.
proof fn lemma_part_read_back(
    before: Seq<u8>,
    boundary: Seq<u8>,
    filename: Seq<u8>,
    data: Seq<u8>,
    after: Seq<u8>,
)
    requires
        quotable(filename),
        forall|j: int|
            0 <= j < data.len() ==> !matches_at(
                data + part_end(boundary) + after,
                part_end(boundary),
                j,
            ),
    ensures
        ({
            let body = before + part_headers(filename) + data + part_end(boundary) + after;
            let pos = before.len() as int;
            let blank = pos + 84 + filename.len();
            let end = blank + 4 + data.len();
            &&& part_headers(filename).len() == 88 + filename.len()
            &&& !matches_at(body, dashes(), pos)
            &&& matches_at(body, crlf(), pos)
            &&& first_match(body, blank_line(), pos) == Some(blank)
            &&& header_filename(header_block(body, pos, blank)) == Some(filename)
            &&& first_match(body, part_end(boundary), blank + 4) == Some(end)
            &&& body.subrange(blank + 4, end) == data
        }),
{
    let marker = part_end(boundary);
    let content = data + marker + after;
    let body = before + part_headers(filename) + data + marker + after;
    let pos = before.len() as int;
    assert(body =~= before + part_headers(filename) + content);
    lemma_blank_line(before, filename, content);
    lemma_header_lines(filename);
    let begin: int = pos + 88 + filename.len();
    let end: int = begin + data.len();
    assert(body.subrange(begin, body.len() as int) =~= content);
    assert(body.subrange(end, end + marker.len()) =~= marker);
    assert forall|j: int| begin <= j < end implies !matches_at(body, marker, j) by {
        lemma_matches_shift(body, marker, begin, j - begin);
    }
    lemma_first_match_is(body, marker, begin, end);
    assert(body.subrange(begin, end) =~= data);
}

/// Round trip: decoding the body that `encode` builds for one file gives
/// back that file name and that content, and nothing else. It holds for
/// every boundary, every file name without a double quote or a line break,
/// and every content, empty or with line breaks in it, in which the
/// content-ending marker does not occur.
pub proof fn lemma_round_trip(boundary: Seq<u8>, filename: Seq<u8>, data: Seq<u8>)
    requires
        quotable(filename),
        ends_cleanly(boundary, data),
    ensures
        decoded(encoded(boundary, filename, data), boundary) == Ok::<Seq<PartModel>, DecodeError>(
            seq![PartModel { filename, data }],
        ),
{
    let body = encoded(boundary, filename, data);
    let opening = delimiter(boundary);
    let marker = part_end(boundary);
    let after = dashes() + crlf();
    let pos = opening.len() as int;
    let next: int = pos + 88 + filename.len() + data.len() + marker.len();
    assert(data + closing(boundary) =~= data + marker + after);
    assert(body =~= opening + part_headers(filename) + data + marker + after);
    lemma_part_read_back(opening, boundary, filename, data, after);
    assert(body.subrange(0, pos) =~= opening);
    assert(body.subrange(next, next + 2) =~= dashes());
    assert(parts_from(body, boundary, next) == Ok::<Seq<PartModel>, DecodeError>(Seq::empty()));
    assert(seq![PartModel { filename, data }] + Seq::<PartModel>::empty() =~= seq![
        PartModel { filename, data },
    ]);
}

/// Where the boundary holds no carriage return, content in which the
/// content-ending marker does not occur is followed by the first occurrence
/// of the marker, whatever stands after that.
pub proof fn lemma_content_ends(boundary: Seq<u8>, data: Seq<u8>, rest: Seq<u8>)
    requires
        forall|i: int| 0 <= i < boundary.len() ==> boundary[i] != 13,
        !contains_bytes(data, part_end(boundary)),
    ensures
        forall|j: int|
            0 <= j < data.len() ==> !matches_at(
                data + part_end(boundary) + rest,
                part_end(boundary),
                j,
            ),
{
    let marker = part_end(boundary);
    let all = data + marker + rest;
    assert forall|j: int| 0 <= j < data.len() implies !matches_at(all, marker, j) by {
        if matches_at(all, marker, j) {
            if j + marker.len() <= data.len() {
                assert(data.subrange(j, j + marker.len()) =~= all.subrange(j, j + marker.len()));
                assert(matches_at(data, marker, j));
            } else {
                let k = data.len() - j;
                assert(all.subrange(j, j + marker.len())[k] == marker[k]);
                assert(all[data.len() as int] == 13u8);
                assert(marker[k] == 13u8);
                assert(k >= 4 ==> marker[k] == boundary[k - 4]);
            }
        }
    }
}

/// Where the boundary holds no carriage return, content ends cleanly as soon
/// as the content-ending marker does not occur in it.
pub proof fn lemma_ends_cleanly(boundary: Seq<u8>, data: Seq<u8>)
    requires
        forall|i: int| 0 <= i < boundary.len() ==> boundary[i] != 13,
        !contains_bytes(data, part_end(boundary)),
    ensures
        ends_cleanly(boundary, data),
{
    lemma_content_ends(boundary, data, dashes() + crlf());
    assert(data + closing(boundary) =~= data + part_end(boundary) + (dashes() + crlf()));
}

/// The files framed after a delimiter are read back from there, in order.
proof fn lemma_parts_read_back(before: Seq<u8>, boundary: Seq<u8>, parts: Seq<PartModel>)
    requires
        forall|i: int| 0 <= i < boundary.len() ==> boundary[i] != 13,
        framable(boundary, parts),
    ensures
        parts_from(before + framed(boundary, parts), boundary, before.len() as int) == Ok::<
            Seq<PartModel>,
            DecodeError,
        >(parts),
    decreases parts.len(),
{
    let body = before + framed(boundary, parts);
    let pos = before.len() as int;
    if parts.len() == 0 {
        assert(body.subrange(pos, pos + 2) =~= dashes());
        assert(parts =~= Seq::<PartModel>::empty());
    } else {
        let first = parts[0];
        let others = parts.drop_first();
        let marker = part_end(boundary);
        let after = framed(boundary, others);
        assert(quotable(first.filename));
        assert(body =~= before + part_headers(first.filename) + first.data + marker + after);
        lemma_content_ends(boundary, first.data, after);
        lemma_part_read_back(before, boundary, first.filename, first.data, after);
        let consumed = before + part_headers(first.filename) + first.data + marker;
        assert(body =~= consumed + after);
        assert(consumed.len() == pos + 88 + first.filename.len() + first.data.len()
            + marker.len());
        assert forall|i: int| 0 <= i < others.len() implies quotable(
            #[trigger] others[i].filename,
        ) && !contains_bytes(others[i].data, marker) by {
            assert(others[i] == parts[i + 1]);
            assert(quotable(parts[i + 1].filename));
        }
        lemma_parts_read_back(consumed, boundary, others);
        assert(seq![PartModel { filename: first.filename, data: first.data }] + others =~= parts);
    }
}

/// Round trip of several files: a body that carries files one after
/// another is decoded into those files, in that order. It holds for every
/// boundary without a carriage return, file names without a double quote or
/// a line break, and contents in which the content-ending marker does not
/// occur; with no file at all the body is the closing delimiter alone.
pub proof fn lemma_round_trip_all(boundary: Seq<u8>, parts: Seq<PartModel>)
    requires
        forall|i: int| 0 <= i < boundary.len() ==> boundary[i] != 13,
        framable(boundary, parts),
    ensures
        decoded(encoded_all(boundary, parts), boundary) == Ok::<Seq<PartModel>, DecodeError>(
            parts,
        ),
{
    let body = encoded_all(boundary, parts);
    assert(body.subrange(0, delimiter(boundary).len() as int) =~= delimiter(boundary));
    lemma_parts_read_back(delimiter(boundary), boundary, parts);
}

/// The body of one file is the body of several files with that file alone.
pub proof fn lemma_encoded_is_encoded_all(boundary: Seq<u8>, filename: Seq<u8>, data: Seq<u8>)
    ensures
        encoded(boundary, filename, data) == encoded_all(
            boundary,
            seq![PartModel { filename, data }],
        ),
{
    let parts = seq![PartModel { filename, data }];
    assert(parts.drop_first() =~= Seq::<PartModel>::empty());
    assert(framed(boundary, parts.drop_first()) == dashes() + crlf());
    assert(encoded(boundary, filename, data) =~= encoded_all(boundary, parts));
}

} // verus!
