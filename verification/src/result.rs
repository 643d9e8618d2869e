//! The error kinds that the store's operations report, with their
//! user-facing message and HTTP-level status code.

use crate::text::{i64_to_string, spec_dec_int};
use vstd::prelude::*;
use vstd::string::StringExecFns;

verus! {

/// Every failure a store operation can report. Message-carrying variants
/// keep the text of the underlying fault.
#[derive(Debug)]
pub enum Error {
    Success,
    Common(String),
    Busy(String),
    CastDbValueError(String),
    ConnectError(String),
    CastToJsonError,
    ParseJsonError(String),
    DirectoryError(String),
    SqliteError(String),
    ConcurrentRequests,
    TimestampError(i64),
    NoSuchFile,
    NoSuchRepo,
    UsedRepoName,
    SomeConfigCanNotChange,
    NeedLogin,
    NoSuchUser,
    NickOrPasswordError,
    UsedNick,
    PermissionCheckFailed,
    ItemNotFound,
    UnknownFileContentType,
    ImageLoadError(String),
    TagNotFound,
    TagRelationNotFound,
}

pub type Res<T, E = Error> = Result<T, E>;

impl Error {
    /// The message that each error kind carries.
    pub open spec fn spec_msg(self) -> Seq<char> {
        match self {
            Error::Success => "Success"@,
            Error::Common(s) => s@,
            Error::Busy(s) => s@,
            Error::CastDbValueError(s) => s@,
            Error::ConnectError(s) => s@,
            Error::CastToJsonError => "cast to json fail"@,
            Error::ParseJsonError(s) => s@,
            Error::DirectoryError(s) => s@,
            Error::SqliteError(s) => s@,
            Error::NeedLogin => "you are not login"@,
            Error::NoSuchUser => "no such user"@,
            Error::NickOrPasswordError => "nick or password error"@,
            Error::UsedNick => "nick has been used"@,
            Error::ItemNotFound => "item not found"@,
            Error::UnknownFileContentType => "unknown file content-type"@,
            Error::ImageLoadError(s) => s@,
            Error::ConcurrentRequests => "busy, please retry after a minute"@,
            Error::TimestampError(t) => "timestamp from "@ + spec_dec_int(t as int) + " failed"@,
            Error::NoSuchFile => "no such file"@,
            Error::NoSuchRepo => "no such repo"@,
            Error::UsedRepoName => "used repo name"@,
            Error::SomeConfigCanNotChange => "some repo config can not be changed"@,
            Error::PermissionCheckFailed => "no permission"@,
            Error::TagNotFound => "tag not found"@,
            Error::TagRelationNotFound => "tag relation not found"@,
        }
    }

    /// The numeric HTTP status that each error kind maps to.
    pub open spec fn spec_code(self) -> u16 {
        match self {
            Error::Success => 200,
            Error::Common(_)
            | Error::Busy(_)
            | Error::CastDbValueError(_)
            | Error::ConnectError(_)
            | Error::CastToJsonError
            | Error::ParseJsonError(_)
            | Error::DirectoryError(_)
            | Error::SqliteError(_)
            | Error::TimestampError(_)
            | Error::ConcurrentRequests => 502,
            Error::NeedLogin => 401,
            Error::PermissionCheckFailed => 403,
            Error::NoSuchUser
            | Error::NickOrPasswordError
            | Error::UsedNick
            | Error::ItemNotFound
            | Error::UnknownFileContentType
            | Error::NoSuchFile
            | Error::NoSuchRepo
            | Error::UsedRepoName
            | Error::TagNotFound
            | Error::SomeConfigCanNotChange
            | Error::TagRelationNotFound
            | Error::ImageLoadError(_) => 400,
        }
    }

    pub fn msg(&self) -> (r: String)
        ensures
            r@ == self.spec_msg(),
    {
        match self {
            Error::Success => String::from_str("Success"),
            Error::Common(s) => s.clone(),
            Error::Busy(s) => s.clone(),
            Error::CastDbValueError(s) => s.clone(),
            Error::ConnectError(s) => s.clone(),
            Error::CastToJsonError => String::from_str("cast to json fail"),
            Error::ParseJsonError(s) => s.clone(),
            Error::DirectoryError(s) => s.clone(),
            Error::SqliteError(s) => s.clone(),
            Error::NeedLogin => String::from_str("you are not login"),
            Error::NoSuchUser => String::from_str("no such user"),
            Error::NickOrPasswordError => String::from_str("nick or password error"),
            Error::UsedNick => String::from_str("nick has been used"),
            Error::ItemNotFound => String::from_str("item not found"),
            Error::UnknownFileContentType => String::from_str("unknown file content-type"),
            Error::ImageLoadError(s) => s.clone(),
            Error::ConcurrentRequests => String::from_str("busy, please retry after a minute"),
            Error::TimestampError(t) => {
                let r = String::from_str("timestamp from ").concat(
                    i64_to_string(*t).as_str(),
                ).concat(" failed");
                proof {
                    assert(r@ =~= "timestamp from "@ + spec_dec_int(*t as int) + " failed"@);
                }
                r
            },
            Error::NoSuchFile => String::from_str("no such file"),
            Error::NoSuchRepo => String::from_str("no such repo"),
            Error::UsedRepoName => String::from_str("used repo name"),
            Error::SomeConfigCanNotChange => {
                String::from_str("some repo config can not be changed")
            },
            Error::PermissionCheckFailed => String::from_str("no permission"),
            Error::TagNotFound => String::from_str("tag not found"),
            Error::TagRelationNotFound => String::from_str("tag relation not found"),
        }
    }

    pub fn code(&self) -> (r: u16)
        ensures
            r == self.spec_code(),
    {
        match self {
            Error::Success => 200,
            Error::Common(_)
            | Error::Busy(_)
            | Error::CastDbValueError(_)
            | Error::ConnectError(_)
            | Error::CastToJsonError
            | Error::ParseJsonError(_)
            | Error::DirectoryError(_)
            | Error::SqliteError(_)
            | Error::TimestampError(_)
            | Error::ConcurrentRequests => 502,
            Error::NeedLogin => 401,
            Error::PermissionCheckFailed => 403,
            Error::NoSuchUser
            | Error::NickOrPasswordError
            | Error::UsedNick
            | Error::ItemNotFound
            | Error::UnknownFileContentType
            | Error::NoSuchFile
            | Error::NoSuchRepo
            | Error::UsedRepoName
            | Error::TagNotFound
            | Error::SomeConfigCanNotChange
            | Error::TagRelationNotFound
            | Error::ImageLoadError(_) => 400,
        }
    }
}

} // verus!
