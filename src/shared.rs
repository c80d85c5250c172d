//! Identity of this client towards the portal: user agent, device
//! identifier, and the websocket URL it logs in with.
use vstd::prelude::*;
use crate::token::Token;
use crate::text::{owned, utf8_text, views};
use vstd::utf8::{encode_utf8, is_ascii_chars, is_ascii_chars_encode_utf8, encode_utf8_valid_utf8, encode_utf8_decode_utf8};

verus! {

pub const LIB_NAME: &'static str = "connlib";

/// Version of this library, reported in the user agent.
pub const LIB_VERSION: &'static str = "0.1.0";

/// Failures in building the portal URL.
#[derive(Debug, Clone, Copy, PartialEq, Eq, Structural)]
pub enum ConnlibError {
    /// The scheme is none of `http`, `https`, `ws`, `wss`.
    UriScheme,
    /// The URL cannot have path segments (it cannot be a base).
    UriError,
}

/// The parts of a portal URL that the login reads and writes. The host
/// takes them out of its URL and writes them back.
#[derive(Debug, Clone, PartialEq, Eq)]
pub struct PortalUrl {
    pub scheme: String,
    /// Whether the URL has an opaque path (as `mailto:x` does) instead of
    /// path segments.
    pub cannot_be_a_base: bool,
    pub path_segments: Vec<String>,
    pub query: Vec<(String, String)>,
}

pub open spec fn pair_views(v: Seq<(String, String)>) -> Seq<(Seq<char>, Seq<char>)> {
    v.map_values(|p: (String, String)| (p.0@, p.1@))
}

/// The websocket scheme that stands for `scheme`.
pub open spec fn ws_scheme_of(scheme: Seq<char>) -> Option<Seq<char>> {
    if scheme == "http"@ || scheme == "ws"@ {
        Some("ws"@)
    } else if scheme == "https"@ || scheme == "wss"@ {
        Some("wss"@)
    } else {
        None
    }
}

/// Path segments without a trailing empty one.
pub open spec fn pop_if_empty(segs: Seq<Seq<char>>) -> Seq<Seq<char>> {
    if segs.len() > 0 && segs.last().len() == 0 {
        segs.drop_last()
    } else {
        segs
    }
}

fn same_text(a: &String, b: &str) -> (r: bool)
    ensures
        r == (a@ == b@),
{
    let b = owned(b);
    *a == b
}

/// Switches the URL to the websocket scheme matching its scheme: `ws` for
/// `http` and `ws`, `wss` for `https` and `wss`; any other scheme is refused
/// and the URL left as it was.
pub fn set_ws_scheme(url: &mut PortalUrl) -> (r: Result<(), ConnlibError>)
    ensures
        ws_scheme_of(old(url).scheme@) is None ==> r == Err::<(), ConnlibError>(
            ConnlibError::UriScheme,
        ) && *final(url) == *old(url),
        ws_scheme_of(old(url).scheme@) matches Some(s) ==> r is Ok && final(url).scheme@ == s
            && final(url).cannot_be_a_base == old(url).cannot_be_a_base && final(url).path_segments
            == old(url).path_segments && final(url).query == old(url).query,
{
    proof {
        reveal_strlit("http");
        reveal_strlit("ws");
        reveal_strlit("https");
        reveal_strlit("wss");
    }
    if same_text(&url.scheme, "http") || same_text(&url.scheme, "ws") {
        url.scheme = owned("ws");
        Ok(())
    } else if same_text(&url.scheme, "https") || same_text(&url.scheme, "wss") {
        url.scheme = owned("wss");
        Ok(())
    } else {
        Err(ConnlibError::UriScheme)
    }
}

/// The URL of the portal's websocket for `mode`, carrying the login in its
/// query: the scheme becomes a websocket one, `mode` and `websocket` are
/// appended to the path (dropping a trailing empty segment first), and the
/// query is replaced by the token, public key, external id and name suffix.
pub fn get_websocket_path(
    url: PortalUrl,
    secret: &Token,
    mode: &str,
    public_key: &str,
    external_id: &str,
    name_suffix: &str,
) -> (r: Result<PortalUrl, ConnlibError>)
    ensures
        ws_scheme_of(url.scheme@) is None ==> r == Err::<PortalUrl, ConnlibError>(
            ConnlibError::UriScheme,
        ),
        ws_scheme_of(url.scheme@) is Some && url.cannot_be_a_base ==> r == Err::<
            PortalUrl,
            ConnlibError,
        >(ConnlibError::UriError),
        ws_scheme_of(url.scheme@) is Some && !url.cannot_be_a_base ==> (r matches Ok(u) && u.scheme@
            == ws_scheme_of(url.scheme@)->0 && !u.cannot_be_a_base && views(u.path_segments@)
            == pop_if_empty(views(url.path_segments@)).push(mode@).push("websocket"@)
            && pair_views(u.query@) == seq![
            ("token"@, secret@),
            ("public_key"@, public_key@),
            ("external_id"@, external_id@),
            ("name_suffix"@, name_suffix@),
        ]),
{
    let mut url = url;
    set_ws_scheme(&mut url)?;
    if url.cannot_be_a_base {
        return Err(ConnlibError::UriError);
    }
    let ghost before = views(url.path_segments@);
    let n = url.path_segments.len();
    if n > 0 && url.path_segments[n - 1].as_str().is_empty() {
        url.path_segments.pop();
    }
    assert(views(url.path_segments@) =~= pop_if_empty(before));
    let ghost popped = views(url.path_segments@);
    url.path_segments.push(owned(mode));
    url.path_segments.push(owned("websocket"));
    assert(views(url.path_segments@) =~= popped.push(mode@).push("websocket"@));
    url.query = vec![
        (owned("token"), owned(secret.expose_secret())),
        (owned("public_key"), owned(public_key)),
        (owned("external_id"), owned(external_id)),
        (owned("name_suffix"), owned(name_suffix)),
    ];
    assert(pair_views(url.query@) =~= seq![
        ("token"@, secret@),
        ("public_key"@, public_key@),
        ("external_id"@, external_id@),
        ("name_suffix"@, name_suffix@),
    ]);
    Ok(url)
}

/// `{os_type}/{os_version} connlib/{version}`.
pub open spec fn user_agent_spec(os_type: Seq<char>, os_version: Seq<char>) -> Seq<char> {
    os_type + "/"@ + os_version + " "@ + "connlib"@ + "/"@ + "0.1.0"@
}

/// The user agent for an operating system of this type and version.
pub fn user_agent(os_type: &str, os_version: &str) -> (r: String)
    ensures
        r@ == user_agent_spec(os_type@, os_version@),
{
    let mut r = owned(os_type);
    r.append("/");
    r.append(os_version);
    r.append(" ");
    r.append(LIB_NAME);
    r.append("/");
    r.append(LIB_VERSION);
    proof {
        reveal_strlit("connlib");
        reveal_strlit("0.1.0");
    }
    r
}

/// Relies on `os_info::get`, with the `Display` of its `os_type()` and
/// `version()`: the running system's type and version, which depend on the
/// machine.
#[verifier::external_body]
fn running_os() -> (r: (String, String))
{
    let info = os_info::get();
    (info.os_type().to_string(), info.version().to_string())
}

/// The user agent of the running system.
pub fn get_user_agent() -> (r: String)
    ensures
        exists|t: Seq<char>, v: Seq<char>| r@ == user_agent_spec(t, v),
{
    let (os_type, os_version) = running_os();
    user_agent(os_type.as_str(), os_version.as_str())
}

/// Relies on `smbioslib::table_load_from_device` and the system information
/// table's `uuid()`: the device's SMBIOS system UUID as text, where the
/// firmware tables can be read and hold one.
#[verifier::external_body]
fn smbios_system_uuid() -> (r: Option<String>)
{
    let data = smbioslib::table_load_from_device().ok()?;
    data.find_map(|sys_info: smbioslib::SMBiosSystemInformation| sys_info.uuid())
        .map(|uuid| uuid.to_string())
}

/// Relies on `uuid::Uuid::new_v4` and its `Display`: a random version 4
/// UUID in its hyphenated form, 36 characters.
#[verifier::external_body]
fn random_uuid() -> (r: String)
    ensures
        r@.len() == 36,
{
    uuid::Uuid::new_v4().to_string()
}

/// The device's identifier: its SMBIOS system UUID where there is one,
/// otherwise a fresh random UUID.
pub fn device_id_from(smbios_uuid: Option<String>) -> (r: String)
    ensures
        smbios_uuid matches Some(u) ==> r@ == u@,
        smbios_uuid is None ==> r@.len() == 36,
{
    match smbios_uuid {
        Some(u) => u,
        None => random_uuid(),
    }
}

/// The SMBIOS serial of the device, or a random UUID where SMBIOS gives
/// none.
pub fn get_device_id() -> (r: String)
{
    device_id_from(smbios_system_uuid())
}

/// The SHA-256 digest of `b`.
pub uninterp spec fn sha256_of(b: Seq<u8>) -> Seq<u8>;

/// Relies on `ring::digest::Context` with `SHA256`: the digest of the bytes
/// fed to `update`, which `finish` returns as its 32 bytes.
#[verifier::external_body]
fn sha256_digest(b: &[u8]) -> (r: Vec<u8>)
    ensures
        r@ == sha256_of(b@),
        r@.len() == 32,
{
    let mut ctx = ring::digest::Context::new(&ring::digest::SHA256);
    ctx.update(b);
    ctx.finish().as_ref().to_vec()
}

/// Lower-case hexadecimal digit for `n < 16`.
pub open spec fn hex_digit(n: u8) -> char {
    if n < 10 {
        (48 + n) as u8 as char
    } else {
        (87 + n) as u8 as char
    }
}

/// Two lower-case hexadecimal digits per byte, high nibble first.
pub open spec fn hex_spec(b: Seq<u8>) -> Seq<char>
    decreases b.len(),
{
    if b.len() == 0 {
        seq![]
    } else {
        hex_spec(b.drop_last()) + seq![hex_digit(b.last() / 16), hex_digit(b.last() % 16)]
    }
}

proof fn lemma_hex_spec(b: Seq<u8>)
    ensures
        hex_spec(b).len() == 2 * b.len(),
        is_ascii_chars(hex_spec(b)),
    decreases b.len(),
{
    if b.len() > 0 {
        lemma_hex_spec(b.drop_last());
    }
}

fn hex_digit_byte(n: u8) -> (r: u8)
    requires
        n < 16,
    ensures
        r == hex_digit(n) as u8,
{
    if n < 10 {
        48 + n
    } else {
        87 + n
    }
}

/// `b` in lower-case hexadecimal, two digits per byte.
pub fn hex_lower(b: &[u8]) -> (r: String)
    ensures
        r@ == hex_spec(b@),
{
    let mut out: Vec<u8> = Vec::new();
    let mut i: usize = 0;
    while i < b.len()
        invariant
            i <= b@.len(),
            out@.len() == hex_spec(b@.subrange(0, i as int)).len(),
            forall|j: int|
                0 <= j < out@.len() ==> #[trigger] out@[j] == hex_spec(b@.subrange(0, i as int))[j]
                    as u8,
        decreases b@.len() - i,
    {
        let byte = b[i];
        out.push(hex_digit_byte(byte / 16));
        out.push(hex_digit_byte(byte % 16));
        i = i + 1;
        assert(b@.subrange(0, i as int).drop_last() =~= b@.subrange(0, i - 1));
    }
    let ghost cs = hex_spec(b@);
    proof {
        assert(b@.subrange(0, b@.len() as int) =~= b@);
        lemma_hex_spec(b@);
        is_ascii_chars_encode_utf8(cs);
        assert(out@ =~= encode_utf8(cs));
        encode_utf8_valid_utf8(cs);
        encode_utf8_decode_utf8(cs);
    }
    match utf8_text(out.as_slice()) {
        Some(text) => text,
        None => {
            proof {
                assert(false);
            }
            String::new()
        },
    }
}

/// The SHA-256 digest of the UTF-8 bytes of `input`, in lower-case
/// hexadecimal.
pub fn sha256(input: String) -> (r: String)
    ensures
        r@ == hex_spec(sha256_of(encode_utf8(input@))),
        r@.len() == 64,
{
    let digest = sha256_digest(input.as_str().as_bytes());
    let r = hex_lower(digest.as_slice());
    proof {
        lemma_hex_spec(digest@);
    }
    r
}

} // verus!
