//! Finding the auth token: from the environment if it was given there, else
//! from a file on disk whose permissions keep it private.
//!
//! The host does the I/O in two steps. It hands [`resolve_token`] the token
//! taken from the environment (if any) and the token file's permission bits
//! (`None` where the file has no metadata, i.e. does not exist). Only when
//! that answers [`TokenStep::ReadFile`] does it read the file, and hands what
//! it read to [`token_from_file`].
use vstd::prelude::*;
use vstd::utf8::{decode_utf8, valid_utf8};
use crate::text::utf8_text;

verus! {

/// The auth secret. It has no `Debug` or other printing: the text leaves
/// only through [`Token::expose_secret`].
pub struct Token {
    secret: String,
}

impl View for Token {
    type V = Seq<char>;

    closed spec fn view(&self) -> Seq<char> {
        self.secret@
    }
}

impl Token {
    /// Wraps a secret.
    pub fn new(secret: String) -> (r: Token)
        ensures
            r@ == secret@,
    {
        Token { secret }
    }

    /// The secret's text.
    pub fn expose_secret(&self) -> (r: &str)
        ensures
            r@ == self@,
    {
        self.secret.as_str()
    }
}

/// Failures in finding the token.
#[derive(Debug, Clone, Copy, PartialEq, Eq, Structural)]
pub enum TokenError {
    /// The token file may be read or written by group or others.
    PermissionError,
    /// The token file is not valid UTF-8 text.
    AuthError,
}

/// What the host does next.
pub enum TokenStep {
    /// The token was found without touching the disk.
    Found(Token),
    /// There is no token file: no token, and that is no error.
    NotFound,
    /// The file exists and is private enough: read it.
    ReadFile,
}

/// Permission bits granting group or others any access.
pub const GROUP_OTHER_BITS: u32 = 0o077;

pub open spec fn private_mode(mode: u32) -> bool {
    mode & 0o077u32 == 0
}

/// Unicode `White_Space`, which `char::is_whitespace` tests.
pub open spec fn is_white_space(c: char) -> bool {
    let u = c as u32;
    (0x9 <= u <= 0xd) || u == 0x20 || u == 0x85 || u == 0xa0 || u == 0x1680 || (0x2000 <= u
        <= 0x200a) || u == 0x2028 || u == 0x2029 || u == 0x202f || u == 0x205f || u == 0x3000
}

/// `t` is `s` without its leading and trailing white space.
pub open spec fn is_trim_of(t: Seq<char>, s: Seq<char>) -> bool {
    exists|a: int, b: int|
        #![trigger s.subrange(a, b)]
        0 <= a <= b <= s.len() && t == s.subrange(a, b) && (forall|i: int|
            0 <= i < a ==> is_white_space(#[trigger] s[i])) && (forall|i: int|
            b <= i < s.len() ==> is_white_space(#[trigger] s[i])) && (a < b ==> !is_white_space(
            s[a]) && !is_white_space(s[b - 1]))
}

/// Relies on `str::trim`: leading and trailing white space removed, white
/// space being what `char::is_whitespace` (Unicode `White_Space`) accepts.
#[verifier::external_body]
fn trim_text(s: &str) -> (r: String)
    ensures
        is_trim_of(r@, s@),
{
    s.trim().to_owned()
}

/// First step: an environment token wins over anything on disk; otherwise a
/// missing file means no token, a file open to group or others is refused
/// before it is read, and a private one is to be read.
pub fn resolve_token(env_token: Option<String>, file_mode: Option<u32>) -> (r: Result<
    TokenStep,
    TokenError,
>)
    ensures
        env_token matches Some(t) ==> r matches Ok(TokenStep::Found(k)) && k@ == t@,
        env_token is None && file_mode is None ==> r matches Ok(TokenStep::NotFound),
        env_token is None && file_mode is Some && !private_mode(file_mode->0) ==> r == Err::<
            TokenStep,
            TokenError,
        >(TokenError::PermissionError),
        env_token is None && file_mode is Some && private_mode(file_mode->0) ==> (r matches Ok(
            TokenStep::ReadFile,
        )),
{
    match env_token {
        Some(t) => Ok(TokenStep::Found(Token::new(t))),
        None => match file_mode {
            None => Ok(TokenStep::NotFound),
            Some(m) => {
                if m & GROUP_OTHER_BITS == 0 {
                    Ok(TokenStep::ReadFile)
                } else {
                    Err(TokenError::PermissionError)
                }
            },
        },
    }
}

/// Second step, from what reading the token file gave (`None` where the
/// read failed after the metadata was read: a disk fault or a race, taken as
/// no token). The token is the file's text without surrounding white space.
pub fn token_from_file(content: Option<Vec<u8>>) -> (r: Result<Option<Token>, TokenError>)
    ensures
        content is None ==> r matches Ok(None),
        content is Some && !valid_utf8(content->0@) ==> r == Err::<Option<Token>, TokenError>(
            TokenError::AuthError,
        ),
        content is Some && valid_utf8(content->0@) ==> (r matches Ok(Some(k)) && is_trim_of(
            k@,
            decode_utf8(content->0@),
        )),
{
    match content {
        None => Ok(None),
        Some(b) => match utf8_text(b.as_slice()) {
            None => Err(TokenError::AuthError),
            Some(text) => Ok(Some(Token::new(trim_text(text.as_str())))),
        },
    }
}

} // verus!
