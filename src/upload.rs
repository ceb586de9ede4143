//! The artifact upload: a compressed body and the headers that name the
//! device file it is written to, sent to the HTTP endpoint of the VM service.

use vstd::prelude::*;
use vstd::string::*;

verus! {

/// The standard base64 encoding, with padding, of some bytes.
pub uninterp spec fn base64_of(b: Seq<u8>) -> Seq<char>;

/// The gzip stream of some bytes, with a zero modification time in its
/// header.
pub uninterp spec fn gzip_of(b: Seq<u8>) -> Seq<u8>;

/// Relies on base64::encode: the standard alphabet with padding.
#[verifier::external_body]
fn base64_encode(b: &[u8]) -> (r: String)
    ensures
        r@ == base64_of(b@),
{
    base64::encode(b)
}

/// Relies on libflate::gzip::Encoder, given a header whose modification time
/// is 0 so that the output depends on the input alone. The encoder fails only
/// when its inner writer does, and a `Vec<u8>` never does.
#[verifier::external_body]
fn gzip(data: &[u8]) -> (r: Option<Vec<u8>>)
    ensures
        r is Some,
        r matches Some(b) ==> b@ == gzip_of(data@),
{
    let header = libflate::gzip::HeaderBuilder::new().modification_time(0).finish();
    let options = libflate::gzip::EncodeOptions::new().header(header);
    let mut encoder = libflate::gzip::Encoder::with_options(Vec::new(), options).ok()?;
    std::io::Write::write_all(&mut encoder, data).ok()?;
    encoder.finish().into_result().ok()
}

pub open spec fn header_views(h: Seq<(String, String)>) -> Seq<(Seq<char>, Seq<char>)> {
    h.map_values(|p: (String, String)| (p.0@, p.1@))
}

/// The headers of an upload to the device filesystem `fs_name`, given the
/// base64 form of the device path.
pub open spec fn upload_headers_spec(fs_name: Seq<char>, uri_b64: Seq<char>) -> Seq<
    (Seq<char>, Seq<char>),
> {
    seq![
        ("dev_fs_name"@, fs_name),
        ("dev_fs_uri_b64"@, uri_b64),
        ("user-agent"@, "Dart/2.1 (dart:io)"@),
    ]
}

pub fn upload_headers(fs_name: &str, uri_b64: &str) -> (r: Vec<(String, String)>)
    ensures
        header_views(r@) == upload_headers_spec(fs_name@, uri_b64@),
{
    let mut r: Vec<(String, String)> = Vec::new();
    r.push((String::from_str("dev_fs_name"), fs_name.to_owned()));
    r.push((String::from_str("dev_fs_uri_b64"), uri_b64.to_owned()));
    r.push((String::from_str("user-agent"), String::from_str("Dart/2.1 (dart:io)")));
    assert(header_views(r@) =~= upload_headers_spec(fs_name@, uri_b64@));
    r
}

/// A PUT to the VM service's HTTP endpoint.
pub struct UploadRequest {
    pub url: String,
    pub headers: Vec<(String, String)>,
    pub body: Vec<u8>,
}

/// The request that writes `content` to `device_uri` in the device
/// filesystem `fs_name`: the body is gzip-compressed and the path travels
/// base64-encoded in a header.
pub fn upload_request(http_address: &str, content: &Vec<u8>, device_uri: &str, fs_name: &str) -> (r:
    UploadRequest)
    ensures
        r.url@ == http_address@,
        r.body@ == gzip_of(content@),
        header_views(r.headers@) == upload_headers_spec(
            fs_name@,
            base64_of(device_uri.spec_bytes()),
        ),
{
    let body = gzip(content.as_slice()).unwrap();
    let uri_b64 = base64_encode(device_uri.as_bytes());
    let headers = upload_headers(fs_name, uri_b64.as_str());
    UploadRequest { url: http_address.to_owned(), headers, body }
}

/// `s` ends with `p`.
pub open spec fn ends_with(s: Seq<char>, p: Seq<char>) -> bool {
    p.len() <= s.len() && s.subrange(s.len() - p.len(), s.len() as int) == p
}

/// The HTTP endpoint of a VM service reached at `ws://<host:port>/ws`:
/// `http://<host:port>/`.
pub open spec fn http_address_of(addr: Seq<char>) -> Option<Seq<char>> {
    if addr.len() >= 8 && addr.subrange(0, 5) == "ws://"@ && ends_with(addr, "/ws"@) {
        Some("http://"@ + addr.subrange(5, addr.len() - 2))
    } else {
        None
    }
}

fn matches_at(s: &str, at: usize, p: &str) -> (r: bool)
    requires
        at + p@.len() <= s@.len(),
    ensures
        r == (s@.subrange(at as int, at + p@.len()) == p@),
{
    let m = p.unicode_len();
    let n = s.unicode_len();
    let mut i: usize = 0;
    while i < m
        invariant
            m == p@.len(),
            n == s@.len(),
            at + m <= s@.len(),
            i <= m,
            forall|j: int| 0 <= j < i ==> s@[at + j] == p@[j],
        decreases m - i,
    {
        if s.get_char(at + i) != p.get_char(i) {
            assert(s@.subrange(at as int, at + m)[i as int] != p@[i as int]);
            return false;
        }
        i = i + 1;
    }
    assert(s@.subrange(at as int, at + m) =~= p@);
    true
}

/// Derives the HTTP endpoint from the VM service's websocket address; `None`
/// when the address is not of the form `ws://<host:port>/ws`.
pub fn http_address(addr: &str) -> (r: Option<String>)
    ensures
        r matches Some(s) ==> http_address_of(addr@) == Some(s@),
        r is None ==> http_address_of(addr@) is None,
{
    let n = addr.unicode_len();
    let scheme = "ws://";
    let tail = "/ws";
    proof {
        reveal_strlit("ws://");
        reveal_strlit("/ws");
    }
    if n < 8 || !matches_at(addr, 0, scheme) || !matches_at(addr, n - 3, tail) {
        return None;
    }
    let mut r = String::from_str("http://");
    r.append(addr.substring_char(5, n - 2));
    Some(r)
}

} // verus!
