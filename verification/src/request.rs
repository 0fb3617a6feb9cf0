//! What a run needs besides the records: the authorization header and the
//! address of the search request, and the path of the output file.

use vstd::prelude::*;
use vstd::string::StringExecFns;
use vstd::utf8::encode_utf8;
use crate::schema::EventKind;

verus! {

/// The standard, padded base64 text of a byte sequence.
pub uninterp spec fn base64_text(bytes: Seq<u8>) -> Seq<char>;

/// Whether a byte sequence of length `n` can be base64-encoded: the encoded
/// length must fit the machine's word.
pub open spec fn can_encode(n: nat) -> bool {
    4 * (n / 3) + 4 <= usize::MAX
}

/// `base64::encode`: the text that the standard alphabet with padding gives
/// for `bytes`. The contract only names the result. The call panics where the
/// encoded length, four characters for every three bytes begun, does not fit
/// a `usize`; `requires` keeps such inputs out.
#[verifier::external_body]
#[allow(deprecated)]
fn base64_encode(bytes: &[u8]) -> (r: String)
    requires
        can_encode(bytes@.len()),
    ensures
        r@ == base64_text(bytes@),
{
    base64::encode(bytes)
}

/// The credentials of a user as they are encoded: id, colon, password.
pub open spec fn credentials(id: Seq<char>, pw: Seq<char>) -> Seq<char> {
    id + seq![':'] + pw
}

/// The value of a basic authorization header for encoded credentials.
pub open spec fn auth_header_text(encoded: Seq<char>) -> Seq<char> {
    "Basic "@ + encoded
}

/// The value of a basic authorization header: the word `Basic`, a space, and
/// the encoded credentials.
pub fn auth_header_of(encoded: &str) -> (header: String)
    ensures
        header@ == auth_header_text(encoded@),
{
    let mut header = "Basic ".to_owned();
    header.append(encoded);
    header
}

/// The value of the basic authorization header for a user: `Basic` and the
/// base64 text of `id:pw`. `None` where the credentials are too long to be
/// encoded on this machine.
pub fn basic_auth_header(id: &str, pw: &str) -> (r: Option<String>)
    ensures
        match r {
            Some(header) => can_encode(encode_utf8(credentials(id@, pw@)).len())
                && header@ == auth_header_text(base64_text(encode_utf8(credentials(id@, pw@)))),
            None => !can_encode(encode_utf8(credentials(id@, pw@)).len()),
        },
{
    let mut text = id.to_owned();
    proof {
        reveal_strlit(":");
    }
    text.append(":");
    text.append(pw);
    assert(text@ =~= credentials(id@, pw@));
    let bytes = text.as_str().as_bytes();
    if bytes.len() / 3 <= (usize::MAX - 4) / 4 {
        let encoded = base64_encode(bytes);
        Some(auth_header_of(encoded.as_str()))
    } else {
        None
    }
}

/// The address of a search request on an index.
pub open spec fn search_url_text(base: Seq<char>, index: Seq<char>) -> Seq<char> {
    base + "/"@ + index + "/_search"@
}

/// The address of the search request: the backend's address, the index, and
/// the search endpoint, separated by slashes.
pub fn search_url(base: &str, index: &str) -> (url: String)
    ensures
        url@ == search_url_text(base@, index@),
{
    let mut url = base.to_owned();
    url.append("/");
    url.append(index);
    url.append("/_search");
    url
}

/// The event code of a kind as it is written in queries and file names.
pub open spec fn code_text(kind: EventKind) -> Seq<char> {
    match kind {
        EventKind::ProcessCreate => "1"@,
        EventKind::NetworkConnection => "3"@,
        EventKind::ImageLoaded => "7"@,
        EventKind::RegistryValueSet => "13"@,
        EventKind::FileDeleteArchived => "23"@,
    }
}

/// The event code of a kind as text.
pub fn event_code_text(kind: EventKind) -> (text: &'static str)
    ensures
        text@ == code_text(kind),
{
    match kind {
        EventKind::ProcessCreate => "1",
        EventKind::NetworkConnection => "3",
        EventKind::ImageLoaded => "7",
        EventKind::RegistryValueSet => "13",
        EventKind::FileDeleteArchived => "23",
    }
}

/// The path of the output file of a kind: the save location, the event code
/// and the suffix, one after the other with nothing between.
pub fn output_path(save_location: &str, kind: EventKind, suffix: &str) -> (path: String)
    ensures
        path@ == save_location@ + code_text(kind) + suffix@,
{
    let mut path = save_location.to_owned();
    path.append(event_code_text(kind));
    path.append(suffix);
    path
}

} // verus!
