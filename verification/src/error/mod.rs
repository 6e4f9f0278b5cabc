//! Application errors, and the forms in which clients see them.
use vstd::prelude::*;
use vstd::string::{to_string_from_display_ensures, StringExecFns};

use crate::json::{json_string, plain_text_is_not_escaped, string_to_json};

pub mod err;

verus! {

/// High-level classification, from which the error code follows.
#[derive(Debug, Clone, Copy, PartialEq, Eq, Structural)]
pub enum ErrorKind {
    /// Malformed JSON or an invalid schema.
    Parse,
    /// A command that was understood, with arguments that are invalid or out of range.
    Validation,
    /// A device, stream or other resource that does not exist.
    NotFound,
    /// An operation that is not permitted.
    Permission,
    /// A failure of a disk, socket or pipe.
    Io,
    /// An unexpected internal error.
    Internal,
}

impl ErrorKind {
    /// The name of the kind, in snake case.
    pub open spec fn name_text(self) -> Seq<char> {
        match self {
            ErrorKind::Parse => "parse"@,
            ErrorKind::Validation => "validation"@,
            ErrorKind::NotFound => "not_found"@,
            ErrorKind::Permission => "permission"@,
            ErrorKind::Io => "io"@,
            ErrorKind::Internal => "internal"@,
        }
    }

    /// The name of the kind, in snake case.
    pub fn name(&self) -> (r: &'static str)
        ensures
            r@ == self.name_text(),
    {
        match self {
            ErrorKind::Parse => "parse",
            ErrorKind::Validation => "validation",
            ErrorKind::NotFound => "not_found",
            ErrorKind::Permission => "permission",
            ErrorKind::Io => "io",
            ErrorKind::Internal => "internal",
        }
    }

    /// The name of the kind, as a JSON string.
    pub fn to_string(&self) -> (r: String)
        ensures
            r@ == json_string(self.name_text()),
            r@ == seq!['"'] + self.name_text() + seq!['"'],
    {
        proof {
            reveal_strlit("parse");
            reveal_strlit("validation");
            reveal_strlit("not_found");
            reveal_strlit("permission");
            reveal_strlit("io");
            reveal_strlit("internal");
            plain_text_is_not_escaped(self.name_text());
        }
        match string_to_json(self.name()) {
            Ok(t) => t,
            Err(_) => "internal".to_owned(),
        }
    }
}

/// What `std` reports of a failed I/O operation.
#[verifier::external_type_specification]
#[verifier::external_body]
pub struct ExIoError(std::io::Error);

/// The error of the application.
#[derive(Debug)]
pub enum AppError {
    Parse(String),
    /// What the failed I/O operation reported, as text.
    Io(String),
    Internal(String),
}

/// The code that clients know a kind by.
pub open spec fn code_text(kind: ErrorKind) -> Seq<char> {
    match kind {
        ErrorKind::Parse => "parse_error"@,
        ErrorKind::Validation => "validation_error"@,
        ErrorKind::NotFound => "not_found"@,
        ErrorKind::Permission => "permission_denied"@,
        ErrorKind::Io => "io_error"@,
        ErrorKind::Internal => "internal_error"@,
    }
}

impl AppError {
    pub open spec fn kind_of(self) -> ErrorKind {
        match self {
            AppError::Parse(_) => ErrorKind::Parse,
            AppError::Io(_) => ErrorKind::Io,
            AppError::Internal(_) => ErrorKind::Internal,
        }
    }

    /// The message for people.
    pub open spec fn message_text(self) -> Seq<char> {
        match self {
            AppError::Parse(m) => "parse error: "@ + m@,
            AppError::Io(m) => "not found: "@ + m@,
            AppError::Internal(m) => "internal error: "@ + m@,
        }
    }

    /// The kind of the error.
    pub fn kind(&self) -> (r: ErrorKind)
        ensures
            r == self.kind_of(),
    {
        match self {
            AppError::Parse(_) => ErrorKind::Parse,
            AppError::Io(_) => ErrorKind::Io,
            AppError::Internal(_) => ErrorKind::Internal,
        }
    }

    /// The short machine code, in snake case, that client packets carry.
    pub fn code(&self) -> (r: &'static str)
        ensures
            r@ == code_text(self.kind_of()),
    {
        match self.kind() {
            ErrorKind::Parse => "parse_error",
            ErrorKind::Validation => "validation_error",
            ErrorKind::NotFound => "not_found",
            ErrorKind::Permission => "permission_denied",
            ErrorKind::Io => "io_error",
            ErrorKind::Internal => "internal_error",
        }
    }

    /// The message for people.
    pub fn to_string(&self) -> (r: String)
        ensures
            r@ == self.message_text(),
    {
        match self {
            AppError::Parse(m) => prefixed("parse error: ", m.as_str()),
            AppError::Io(m) => prefixed("not found: ", m.as_str()),
            AppError::Internal(m) => prefixed("internal error: ", m.as_str()),
        }
    }
}

fn prefixed(prefix: &str, text: &str) -> (r: String)
    ensures
        r@ == prefix@ + text@,
{
    let mut r = prefix.to_owned();
    r.append(text);
    r
}

impl From<std::io::Error> for AppError {
    fn from(err: std::io::Error) -> (r: Self)
        ensures
            r matches AppError::Io(m) && to_string_from_display_ensures(&err, m),
    {
        AppError::Io(err.to_string())
    }
}

impl vstd::std_specs::convert::FromSpecImpl<std::io::Error> for AppError {
    open spec fn obeys_from_spec() -> bool {
        false
    }

    open spec fn from_spec(err: std::io::Error) -> Self {
        arbitrary()
    }
}

/// The error as clients see it.
#[derive(Debug)]
pub struct ClientFacingError {
    pub code: String,
    pub message: String,
    /// What the client had sent, where it helps.
    pub raw: Option<String>,
}

impl From<AppError> for ClientFacingError {
    fn from(err: AppError) -> (r: Self)
        ensures
            r.tells(err),
    {
        ClientFacingError { code: err.code().to_owned(), message: err.to_string(), raw: None }
    }
}

impl vstd::std_specs::convert::FromSpecImpl<AppError> for ClientFacingError {
    open spec fn obeys_from_spec() -> bool {
        false
    }

    open spec fn from_spec(err: AppError) -> Self {
        arbitrary()
    }
}

impl ClientFacingError {
    /// Whether this is an error as clients see it, without what the client had sent.
    pub open spec fn tells(self, err: AppError) -> bool {
        &&& self.code@ == code_text(err.kind_of())
        &&& self.message@ == err.message_text()
        &&& self.raw is None
    }

    /// Whether this is the same error as another, with what the client had sent.
    pub open spec fn quotes(self, other: ClientFacingError, raw: Seq<char>) -> bool {
        &&& self.code == other.code
        &&& self.message == other.message
        &&& self.raw matches Some(t) && t@ == raw
    }

    /// The same error, with what the client had sent.
    pub fn with_raw(self, raw: &str) -> (r: Self)
        ensures
            r.quotes(self, raw@),
    {
        ClientFacingError { code: self.code, message: self.message, raw: Some(raw.to_owned()) }
    }
}

/// The error as REST endpoints report it.
#[derive(Debug)]
pub struct ErrorResponse {
    /// The machine code.
    pub error: String,
    /// The message for people.
    pub message: String,
}

impl ErrorResponse {
    /// Whether this is an error as REST endpoints report it.
    pub open spec fn reports(self, err: AppError) -> bool {
        &&& self.error@ == code_text(err.kind_of())
        &&& self.message@ == err.message_text()
    }
}

impl From<AppError> for ErrorResponse {
    fn from(e: AppError) -> (r: Self)
        ensures
            r.reports(e),
    {
        ErrorResponse { error: e.code().to_owned(), message: e.to_string() }
    }
}

impl vstd::std_specs::convert::FromSpecImpl<AppError> for ErrorResponse {
    open spec fn obeys_from_spec() -> bool {
        false
    }

    open spec fn from_spec(e: AppError) -> Self {
        arbitrary()
    }
}

/// Kinds of errors have different codes and different names.
pub proof fn codes_and_names_tell_kinds_apart(a: ErrorKind, b: ErrorKind)
    ensures
        code_text(a) == code_text(b) ==> a == b,
        a.name_text() == b.name_text() ==> a == b,
{
    reveal_strlit("parse_error");
    reveal_strlit("validation_error");
    reveal_strlit("not_found");
    reveal_strlit("permission_denied");
    reveal_strlit("io_error");
    reveal_strlit("internal_error");
    reveal_strlit("parse");
    reveal_strlit("validation");
    reveal_strlit("permission");
    reveal_strlit("io");
    reveal_strlit("internal");
    assert(code_text(a).len() == code_text(b).len() ==> a == b);
    assert("validation"@[0] == 'v');
    assert("permission"@[0] == 'p');
    if a.name_text() == b.name_text() {
        assert(a.name_text().len() == b.name_text().len());
        assert(a.name_text()[0] == b.name_text()[0]);
    }
}

/// A message begins with what went wrong and ends in what the error carries, so that errors of one
/// kind with different texts have different messages. The kind of an error is that of its variant.
pub proof fn messages_carry_their_text(text: String)
    ensures
        ({
            let parse = AppError::Parse(text);
            let io = AppError::Io(text);
            let internal = AppError::Internal(text);
            &&& parse.message_text().len() == 13 + text@.len()
            &&& parse.message_text().take(13) == "parse error: "@
            &&& parse.message_text().skip(13) == text@
            &&& io.message_text().len() == 11 + text@.len()
            &&& io.message_text().take(11) == "not found: "@
            &&& io.message_text().skip(11) == text@
            &&& internal.message_text().len() == 16 + text@.len()
            &&& internal.message_text().take(16) == "internal error: "@
            &&& internal.message_text().skip(16) == text@
            &&& code_text(parse.kind_of()) == "parse_error"@
            &&& code_text(io.kind_of()) == "io_error"@
            &&& code_text(internal.kind_of()) == "internal_error"@
        }),
{
    reveal_strlit("parse error: ");
    reveal_strlit("not found: ");
    reveal_strlit("internal error: ");
    assert(AppError::Parse(text).message_text().take(13) =~= "parse error: "@);
    assert(AppError::Parse(text).message_text().skip(13) =~= text@);
    assert(AppError::Io(text).message_text().take(11) =~= "not found: "@);
    assert(AppError::Io(text).message_text().skip(11) =~= text@);
    assert(AppError::Internal(text).message_text().take(16) =~= "internal error: "@);
    assert(AppError::Internal(text).message_text().skip(16) =~= text@);
}

/// Clients and REST endpoints see an error under the same code and with the same message, each of
/// which tells the variant of the error. What the client had sent is added without changing them.
pub proof fn errors_are_seen_alike(
    err: AppError,
    client: ClientFacingError,
    quoted: ClientFacingError,
    rest: ErrorResponse,
    raw: Seq<char>,
)
    requires
        client.tells(err),
        quoted.quotes(client, raw),
        rest.reports(err),
    ensures
        client.raw is None,
        quoted.raw is Some && quoted.raw->0@ == raw,
        quoted.code@ == client.code@ && quoted.message@ == client.message@,
        rest.error@ == client.code@ && rest.message@ == client.message@,
        err is Parse <==> client.code@ == "parse_error"@,
        err is Io <==> client.code@ == "io_error"@,
        err is Internal <==> client.code@ == "internal_error"@,
        client.message@ == err.message_text(),
{
    codes_and_names_tell_kinds_apart(err.kind_of(), ErrorKind::Parse);
    codes_and_names_tell_kinds_apart(err.kind_of(), ErrorKind::Io);
    codes_and_names_tell_kinds_apart(err.kind_of(), ErrorKind::Internal);
}

} // verus!
