//! The errors of the service, each with a stable numeric code and a message.
use vstd::prelude::*;
use vstd::string::*;

verus! {

/// The kind of an [`AppError`], without what it carries.
#[derive(Clone, Copy, Debug, PartialEq, Eq, Structural)]
pub enum AppErrorKind {
    HTTPNotFound,
    OAuth2RequestToken,
    Request,
    UrlParse,
    Redis,
    MySQL,
    KeyNotFound,
    StateNotFound,
    Token,
    Unauthorized,
    Invalid,
    Limit,
    Unknown,
    Conflict,
}

impl AppErrorKind {
    /// The numeric code of a kind: its position in the declaration, from zero.
    pub open spec fn spec_code(self) -> i8 {
        match self {
            AppErrorKind::HTTPNotFound => 0i8,
            AppErrorKind::OAuth2RequestToken => 1i8,
            AppErrorKind::Request => 2i8,
            AppErrorKind::UrlParse => 3i8,
            AppErrorKind::Redis => 4i8,
            AppErrorKind::MySQL => 5i8,
            AppErrorKind::KeyNotFound => 6i8,
            AppErrorKind::StateNotFound => 7i8,
            AppErrorKind::Token => 8i8,
            AppErrorKind::Unauthorized => 9i8,
            AppErrorKind::Invalid => 10i8,
            AppErrorKind::Limit => 11i8,
            AppErrorKind::Unknown => 12i8,
            AppErrorKind::Conflict => 13i8,
        }
    }

    /// The numeric code sent to clients for this kind of error.
    #[verifier::when_used_as_spec(spec_code)]
    pub fn code(self) -> (code: i8)
        ensures
            code == self.spec_code(),
    {
        match self {
            AppErrorKind::HTTPNotFound => 0i8,
            AppErrorKind::OAuth2RequestToken => 1i8,
            AppErrorKind::Request => 2i8,
            AppErrorKind::UrlParse => 3i8,
            AppErrorKind::Redis => 4i8,
            AppErrorKind::MySQL => 5i8,
            AppErrorKind::KeyNotFound => 6i8,
            AppErrorKind::StateNotFound => 7i8,
            AppErrorKind::Token => 8i8,
            AppErrorKind::Unauthorized => 9i8,
            AppErrorKind::Invalid => 10i8,
            AppErrorKind::Limit => 11i8,
            AppErrorKind::Unknown => 12i8,
            AppErrorKind::Conflict => 13i8,
        }
    }
}

/// Two kinds with the same code are the same kind.
pub proof fn law_codes_tell_kinds_apart(a: AppErrorKind, b: AppErrorKind)
    requires
        a.spec_code() == b.spec_code(),
    ensures
        a == b,
{
}

/// What an [`AppError`] is to a contract: its kind and the text it carries
/// (empty for the kinds that carry none).
pub struct Fault {
    pub kind: AppErrorKind,
    pub detail: Seq<char>,
}

impl Fault {
    /// The fault of a kind that carries no text.
    pub open spec fn bare(kind: AppErrorKind) -> Fault {
        Fault { kind, detail: Seq::empty() }
    }

    /// The message shown for a fault.
    pub open spec fn message(self) -> Seq<char> {
        match self.kind {
            AppErrorKind::HTTPNotFound => "404 Not Found"@,
            AppErrorKind::OAuth2RequestToken => "请求令牌错误: "@ + self.detail,
            AppErrorKind::Request => "请求错误: "@ + self.detail,
            AppErrorKind::UrlParse => "url解析失败"@,
            AppErrorKind::Redis => "Redis错误: "@ + self.detail,
            AppErrorKind::MySQL => "MySQL错误: "@ + self.detail,
            AppErrorKind::KeyNotFound => "Key not found"@,
            AppErrorKind::StateNotFound => "state过期或不存在"@,
            AppErrorKind::Token => "token异常: "@ + self.detail,
            AppErrorKind::Unauthorized => "未认证"@,
            AppErrorKind::Invalid => "无效的响应"@,
            AppErrorKind::Limit => "数量达到上限"@,
            AppErrorKind::Unknown => "未知错误"@,
            AppErrorKind::Conflict => "Key already exists"@,
        }
    }

    /// What a client is sent for a fault: a plain 404 for a missing route,
    /// otherwise status 200 with the code and the message.
    pub open spec fn reply(self) -> ErrorReplyView {
        if self.kind == AppErrorKind::HTTPNotFound {
            ErrorReplyView { status: 404u16, code: None, text: "404 Not Found"@ }
        } else {
            ErrorReplyView { status: 200u16, code: Some(self.kind.spec_code()), text: self.message() }
        }
    }
}

/// An error of the service. The kinds that stem from a collaborator (a store, a
/// remote service, a parser) carry that collaborator's description of the failure.
#[derive(Debug, PartialEq, Eq)]
pub enum AppError {
    HTTPNotFound,
    OAuth2RequestToken(String),
    Request(String),
    UrlParse(String),
    Redis(String),
    MySQL(String),
    KeyNotFound,
    StateNotFound,
    Token(String),
    Unauthorized,
    Invalid,
    Limit,
    Unknown,
    Conflict,
}

impl View for AppError {
    type V = Fault;

    open spec fn view(&self) -> Fault {
        match self {
            AppError::HTTPNotFound => Fault::bare(AppErrorKind::HTTPNotFound),
            AppError::OAuth2RequestToken(d) => Fault { kind: AppErrorKind::OAuth2RequestToken, detail: d@ },
            AppError::Request(d) => Fault { kind: AppErrorKind::Request, detail: d@ },
            AppError::UrlParse(d) => Fault { kind: AppErrorKind::UrlParse, detail: d@ },
            AppError::Redis(d) => Fault { kind: AppErrorKind::Redis, detail: d@ },
            AppError::MySQL(d) => Fault { kind: AppErrorKind::MySQL, detail: d@ },
            AppError::KeyNotFound => Fault::bare(AppErrorKind::KeyNotFound),
            AppError::StateNotFound => Fault::bare(AppErrorKind::StateNotFound),
            AppError::Token(d) => Fault { kind: AppErrorKind::Token, detail: d@ },
            AppError::Unauthorized => Fault::bare(AppErrorKind::Unauthorized),
            AppError::Invalid => Fault::bare(AppErrorKind::Invalid),
            AppError::Limit => Fault::bare(AppErrorKind::Limit),
            AppError::Unknown => Fault::bare(AppErrorKind::Unknown),
            AppError::Conflict => Fault::bare(AppErrorKind::Conflict),
        }
    }
}

/// The body of the reply sent for an error other than a missing route.
#[derive(Debug, PartialEq, Eq)]
pub struct ErrorResponse {
    pub code: i8,
    pub error: String,
}

/// What is sent to a client for an error.
#[derive(Debug, PartialEq, Eq)]
pub enum ErrorReply {
    /// Status 404 with a plain text body.
    NotFound(String),
    /// Status 200 with a structured body.
    Reported(ErrorResponse),
}

/// What an [`ErrorReply`] is to a contract.
pub struct ErrorReplyView {
    pub status: u16,
    pub code: Option<i8>,
    pub text: Seq<char>,
}

impl View for ErrorReply {
    type V = ErrorReplyView;

    open spec fn view(&self) -> ErrorReplyView {
        match self {
            ErrorReply::NotFound(text) => ErrorReplyView { status: 404u16, code: None, text: text@ },
            ErrorReply::Reported(body) => ErrorReplyView {
                status: 200u16,
                code: Some(body.code),
                text: body.error@,
            },
        }
    }
}

impl Clone for AppError {
    fn clone(&self) -> (copy: Self)
        ensures
            copy@ == self@,
    {
        match self {
            AppError::HTTPNotFound => AppError::HTTPNotFound,
            AppError::OAuth2RequestToken(d) => AppError::OAuth2RequestToken(d.clone()),
            AppError::Request(d) => AppError::Request(d.clone()),
            AppError::UrlParse(d) => AppError::UrlParse(d.clone()),
            AppError::Redis(d) => AppError::Redis(d.clone()),
            AppError::MySQL(d) => AppError::MySQL(d.clone()),
            AppError::KeyNotFound => AppError::KeyNotFound,
            AppError::StateNotFound => AppError::StateNotFound,
            AppError::Token(d) => AppError::Token(d.clone()),
            AppError::Unauthorized => AppError::Unauthorized,
            AppError::Invalid => AppError::Invalid,
            AppError::Limit => AppError::Limit,
            AppError::Unknown => AppError::Unknown,
            AppError::Conflict => AppError::Conflict,
        }
    }
}

impl Clone for ErrorResponse {
    fn clone(&self) -> (copy: Self)
        ensures
            copy == *self,
    {
        ErrorResponse { code: self.code, error: self.error.clone() }
    }
}

impl Clone for ErrorReply {
    fn clone(&self) -> (copy: Self)
        ensures
            copy@ == self@,
    {
        match self {
            ErrorReply::NotFound(text) => ErrorReply::NotFound(text.clone()),
            ErrorReply::Reported(body) => ErrorReply::Reported(body.clone()),
        }
    }
}

impl ErrorReply {
    /// The HTTP status of the reply.
    pub fn status(&self) -> (status: u16)
        ensures
            status == self@.status,
    {
        match self {
            ErrorReply::NotFound(_) => 404u16,
            ErrorReply::Reported(_) => 200u16,
        }
    }
}

impl AppError {
    /// The kind of this error.
    pub fn kind(&self) -> (kind: AppErrorKind)
        ensures
            kind == self@.kind,
    {
        match self {
            AppError::HTTPNotFound => AppErrorKind::HTTPNotFound,
            AppError::OAuth2RequestToken(_) => AppErrorKind::OAuth2RequestToken,
            AppError::Request(_) => AppErrorKind::Request,
            AppError::UrlParse(_) => AppErrorKind::UrlParse,
            AppError::Redis(_) => AppErrorKind::Redis,
            AppError::MySQL(_) => AppErrorKind::MySQL,
            AppError::KeyNotFound => AppErrorKind::KeyNotFound,
            AppError::StateNotFound => AppErrorKind::StateNotFound,
            AppError::Token(_) => AppErrorKind::Token,
            AppError::Unauthorized => AppErrorKind::Unauthorized,
            AppError::Invalid => AppErrorKind::Invalid,
            AppError::Limit => AppErrorKind::Limit,
            AppError::Unknown => AppErrorKind::Unknown,
            AppError::Conflict => AppErrorKind::Conflict,
        }
    }

    /// The numeric code of this error.
    pub fn code(&self) -> (code: i8)
        ensures
            code == self@.kind.spec_code(),
    {
        self.kind().code()
    }

    /// The message of this error.
    pub fn message(&self) -> (text: String)
        ensures
            text@ == self@.message(),
    {
        match self {
            AppError::HTTPNotFound => String::from_str("404 Not Found"),
            AppError::OAuth2RequestToken(d) => String::from_str("请求令牌错误: ").concat(d.as_str()),
            AppError::Request(d) => String::from_str("请求错误: ").concat(d.as_str()),
            AppError::UrlParse(_) => String::from_str("url解析失败"),
            AppError::Redis(d) => String::from_str("Redis错误: ").concat(d.as_str()),
            AppError::MySQL(d) => String::from_str("MySQL错误: ").concat(d.as_str()),
            AppError::KeyNotFound => String::from_str("Key not found"),
            AppError::StateNotFound => String::from_str("state过期或不存在"),
            AppError::Token(d) => String::from_str("token异常: ").concat(d.as_str()),
            AppError::Unauthorized => String::from_str("未认证"),
            AppError::Invalid => String::from_str("无效的响应"),
            AppError::Limit => String::from_str("数量达到上限"),
            AppError::Unknown => String::from_str("未知错误"),
            AppError::Conflict => String::from_str("Key already exists"),
        }
    }

    /// What a client is sent for this error.
    pub fn into_response(self) -> (reply: ErrorReply)
        ensures
            reply@ == self@.reply(),
    {
        match self {
            AppError::HTTPNotFound => ErrorReply::NotFound(String::from_str("404 Not Found")),
            other => {
                let code = other.code();
                let error = other.message();
                ErrorReply::Reported(ErrorResponse { code, error })
            },
        }
    }
}

} // verus!
