//! The requests that the capture node posts to the ingestion service: one
//! health sample as JSON and one picture as a multipart body. Each is sent
//! once; nothing here retries.

use crate::bytes::{ascii, ascii_bytes, decimal, decimal_text, push_ascii};
use crate::multipart::{encode, encoded};
use vstd::prelude::*;

verus! {

/// Seconds the node waits for a connection or a response.
pub const REQUEST_TIMEOUT_SECONDS: u64 = 60;

/// Size of the receive and of the transmit buffer, in bytes.
pub const IO_BUFFER_BYTES: usize = 4096;

/// One header of a request.
#[derive(Clone, Debug, PartialEq, Eq)]
pub struct Header {
    pub name: Vec<u8>,
    pub value: Vec<u8>,
}

/// What a `Header` holds, as sequences.
pub struct HeaderModel {
    pub name: Seq<u8>,
    pub value: Seq<u8>,
}

impl View for Header {
    type V = HeaderModel;

    open spec fn view(&self) -> HeaderModel {
        HeaderModel { name: self.name@, value: self.value@ }
    }
}

/// The models of a sequence of headers, in order.
pub open spec fn headers_view(headers: Seq<Header>) -> Seq<HeaderModel> {
    headers.map_values(|h: Header| h@)
}

/// A POST request, ready to be sent.
#[derive(Clone, Debug, PartialEq, Eq)]
pub struct PostRequest {
    pub uri: Vec<u8>,
    pub headers: Vec<Header>,
    pub body: Vec<u8>,
}

/// What a `PostRequest` holds, as sequences.
pub struct PostRequestModel {
    pub uri: Seq<u8>,
    pub headers: Seq<HeaderModel>,
    pub body: Seq<u8>,
}

impl View for PostRequest {
    type V = PostRequestModel;

    open spec fn view(&self) -> PostRequestModel {
        PostRequestModel {
            uri: self.uri@,
            headers: headers_view(self.headers@),
            body: self.body@,
        }
    }
}

/// The headers of a POST: the content type and the body's length in decimal.
pub open spec fn post_headers(content_type: Seq<u8>, length: nat) -> Seq<HeaderModel> {
    seq![
        HeaderModel { name: ascii("Content-Type"@), value: content_type },
        HeaderModel { name: ascii("Content-Length"@), value: decimal(length) },
    ]
}

/// The health request: the JSON body as given, posted to the service's
/// `/health`.
pub open spec fn spec_health_request(server: Seq<u8>, body: Seq<u8>) -> PostRequestModel {
    PostRequestModel {
        uri: server + ascii("/health"@),
        headers: post_headers(ascii("application/json"@), body.len()),
        body,
    }
}

/// The upload request: the picture framed as one multipart file, posted to
/// the service's `/upload`.
pub open spec fn spec_image_request(
    server: Seq<u8>,
    boundary: Seq<u8>,
    filename: Seq<u8>,
    image: Seq<u8>,
) -> PostRequestModel {
    PostRequestModel {
        uri: server + ascii("/upload"@),
        headers: post_headers(
            ascii("multipart/form-data; boundary="@) + boundary,
            encoded(boundary, filename, image).len(),
        ),
        body: encoded(boundary, filename, image),
    }
}

fn headers_for(content_type: Vec<u8>, length: usize) -> (headers: Vec<Header>)
    ensures
        headers_view(headers@) == post_headers(content_type@, length as nat),
{
    proof {
        reveal_strlit("Content-Type");
        reveal_strlit("Content-Length");
    }
    let mut headers: Vec<Header> = Vec::new();
    headers.push(Header { name: ascii_bytes("Content-Type"), value: content_type });
    headers.push(Header { name: ascii_bytes("Content-Length"), value: decimal_text(length) });
    assert(headers_view(headers@) =~= post_headers(content_type@, length as nat));
    headers
}

/// Builds the request that reports one health sample, given as JSON.
pub fn health_request(server: &[u8], body: Vec<u8>) -> (request: PostRequest)
    ensures
        request@ == spec_health_request(server@, body@),
{
    proof {
        reveal_strlit("/health");
        reveal_strlit("application/json");
    }
    let mut uri: Vec<u8> = Vec::new();
    uri.extend_from_slice(server);
    push_ascii(&mut uri, "/health");
    assert(uri@ =~= server@ + ascii("/health"@));
    let headers = headers_for(ascii_bytes("application/json"), body.len());
    PostRequest { uri, headers, body }
}

/// Builds the request that uploads one picture under `filename`.
pub fn image_request(server: &[u8], boundary: &[u8], filename: &[u8], image: &[u8]) -> (request:
    PostRequest)
    ensures
        request@ == spec_image_request(server@, boundary@, filename@, image@),
{
    proof {
        reveal_strlit("/upload");
        reveal_strlit("multipart/form-data; boundary=");
    }
    let mut uri: Vec<u8> = Vec::new();
    uri.extend_from_slice(server);
    push_ascii(&mut uri, "/upload");
    assert(uri@ =~= server@ + ascii("/upload"@));
    let body = encode(boundary, filename, image);
    let mut content_type = ascii_bytes("multipart/form-data; boundary=");
    content_type.extend_from_slice(boundary);
    assert(content_type@ == ascii("multipart/form-data; boundary="@) + boundary@);
    let headers = headers_for(content_type, body.len());
    PostRequest { uri, headers, body }
}

} // verus!
