use vstd::prelude::*;

use crate::text::{joined, owned};

verus! {

/// Everything that can go wrong in the platform.
///
/// Failures reported by other systems (the file system, the database, the
/// mail server, ...) are kept as the text those systems report; the
/// platform's own failures carry their own message.
#[derive(Debug, Clone, PartialEq)]
pub enum Error {
    Io(String),
    Utf8(String),
    NetAddrParse(String),
    Nix(String),
    Git(String),
    Diesel(String),
    SerdeJson(String),
    MimeFromStr(String),
    LettreSmtp(String),
    R2d2(String),
    BadMediaType(String),
    BadGender(String),
    SodiumInit,
    SodiumBadKey,
    SodiumHash,
    SodiumDecrypt,
    SodiumBadNonce,
    UserBadPassword,
    UserIsNotConfirmed,
    UserIsDeleted,
    UserIsLocked,
    RabbitMQEmptyMessageId,
    RabbitMQEmptyContentType,
    RabbitMQBadContentType(String),
}

impl Error {
    /// The text shown to a user for this error.
    pub open spec fn display(&self) -> Seq<char> {
        match self {
            Error::Io(e) => e@,
            Error::Utf8(e) => e@,
            Error::NetAddrParse(e) => e@,
            Error::Nix(e) => e@,
            Error::Git(e) => e@,
            Error::Diesel(e) => e@,
            Error::SerdeJson(e) => e@,
            Error::MimeFromStr(e) => e@,
            Error::LettreSmtp(e) => e@,
            Error::R2d2(e) => e@,
            Error::BadMediaType(t) => "bad media type "@ + t@,
            Error::BadGender(g) => "bad gender "@ + g@,
            Error::SodiumInit => "sodium init failed"@,
            Error::SodiumBadKey => "bad key length, must be 32"@,
            Error::SodiumHash => "build hash failed"@,
            Error::SodiumDecrypt => "decrypt failed"@,
            Error::SodiumBadNonce => "bad nonce"@,
            Error::UserBadPassword => "bad password"@,
            Error::UserIsNotConfirmed => "your account isn't confirmed"@,
            Error::UserIsDeleted => "your account id deleted"@,
            Error::UserIsLocked => "your account is locked"@,
            Error::RabbitMQEmptyMessageId => "empty message id"@,
            Error::RabbitMQEmptyContentType => "empty message content type"@,
            Error::RabbitMQBadContentType(t) => "bad message content type "@ + t@,
        }
    }

    /// The text shown to a user for this error.
    pub fn to_string(&self) -> (r: String)
        ensures
            r@ == self.display(),
    {
        match self {
            Error::Io(e) => e.clone(),
            Error::Utf8(e) => e.clone(),
            Error::NetAddrParse(e) => e.clone(),
            Error::Nix(e) => e.clone(),
            Error::Git(e) => e.clone(),
            Error::Diesel(e) => e.clone(),
            Error::SerdeJson(e) => e.clone(),
            Error::MimeFromStr(e) => e.clone(),
            Error::LettreSmtp(e) => e.clone(),
            Error::R2d2(e) => e.clone(),
            Error::BadMediaType(t) => joined("bad media type ", t.as_str()),
            Error::BadGender(g) => joined("bad gender ", g.as_str()),
            Error::SodiumInit => owned("sodium init failed"),
            Error::SodiumBadKey => owned("bad key length, must be 32"),
            Error::SodiumHash => owned("build hash failed"),
            Error::SodiumDecrypt => owned("decrypt failed"),
            Error::SodiumBadNonce => owned("bad nonce"),
            Error::UserBadPassword => owned("bad password"),
            Error::UserIsNotConfirmed => owned("your account isn't confirmed"),
            Error::UserIsDeleted => owned("your account id deleted"),
            Error::UserIsLocked => owned("your account is locked"),
            Error::RabbitMQEmptyMessageId => owned("empty message id"),
            Error::RabbitMQEmptyContentType => owned("empty message content type"),
            Error::RabbitMQBadContentType(t) => joined("bad message content type ", t.as_str()),
        }
    }
}

/// An error on its way to an HTTP client, held as the text that the client
/// is shown.
#[derive(Debug, Clone, PartialEq)]
pub struct HttpError(pub String);

/// The answer sent for a failed request: a body of the given content type
/// under an HTTP status code.
#[derive(Debug, Clone, PartialEq)]
pub struct Response {
    pub status: u16,
    pub content_type: String,
    pub body: String,
}

/// The content type of plain UTF-8 text.
pub const PLAIN_TEXT: &'static str = "text/plain; charset=utf-8";

/// The status code of every error answer: 500 Internal Server Error.
pub const INTERNAL_SERVER_ERROR: u16 = 500;

impl HttpError {
    /// Wraps an error of the platform.
    pub fn from(err: Error) -> (r: HttpError)
        ensures
            r.0@ == err.display(),
    {
        HttpError(err.to_string())
    }

    /// The answer for this error: status 500 with the error's text as a
    /// plain-text body.
    pub fn respond_to(&self) -> (r: Response)
        ensures
            r.status == INTERNAL_SERVER_ERROR,
            r.content_type@ == PLAIN_TEXT@,
            r.body@ == self.0@,
    {
        Response {
            status: INTERNAL_SERVER_ERROR,
            content_type: owned(PLAIN_TEXT),
            body: self.0.clone(),
        }
    }
}

} // verus!
