//! Errors: what the local runtime reports and how the API answers it.
use crate::text::same_text;
use vstd::prelude::*;
use vstd::std_specs::convert::FromSpecImpl;
use vstd::string::*;

verus! {

/// The HTTP statuses that a refused request is answered with.
#[derive(Debug, Clone, Copy, PartialEq, Eq, Structural)]
pub enum HttpStatus {
    BadRequest,
    Unauthorized,
    NotFound,
    RequestTimeout,
    Conflict,
    InternalServerError,
}

/// The number of a status.
pub open spec fn status_number(status: HttpStatus) -> u16 {
    match status {
        HttpStatus::BadRequest => 400,
        HttpStatus::Unauthorized => 401,
        HttpStatus::NotFound => 404,
        HttpStatus::RequestTimeout => 408,
        HttpStatus::Conflict => 409,
        HttpStatus::InternalServerError => 500,
    }
}

impl HttpStatus {
    /// The number of the status.
    pub fn as_u16(self) -> (number: u16)
        ensures
            number == status_number(self),
    {
        match self {
            HttpStatus::BadRequest => 400,
            HttpStatus::Unauthorized => 401,
            HttpStatus::NotFound => 404,
            HttpStatus::RequestTimeout => 408,
            HttpStatus::Conflict => 409,
            HttpStatus::InternalServerError => 500,
        }
    }
}

/// The failures of the local runtime that the API tells apart.
#[derive(Debug, Clone, Copy, PartialEq, Eq, Structural)]
pub enum BackendErrorKind {
    SandboxNotFound,
    SandboxAlreadyExists,
    SandboxStillRunning,
    VolumeNotFound,
    VolumeAlreadyExists,
    InvalidConfig,
    Unsupported,
    ExecTimeout,
    /// Any other failure.
    Other,
}

/// A failure of the local runtime: its kind, and the text that it prints as.
#[derive(Debug)]
pub struct BackendError {
    pub kind: BackendErrorKind,
    pub message: String,
}

/// What a [`BackendError`] says.
#[verifier::ext_equal]
pub struct BackendErrorView {
    pub kind: BackendErrorKind,
    pub message: Seq<char>,
}

impl View for BackendError {
    type V = BackendErrorView;

    open spec fn view(&self) -> BackendErrorView {
        BackendErrorView { kind: self.kind, message: self.message@ }
    }
}

/// A failure to read a message of the exec protocol, by the text that it prints as.
#[derive(Debug)]
pub struct ProtocolError {
    pub message: String,
}

/// A refusal: the HTTP status, a code for machines and a message for people.
#[derive(Debug)]
pub struct ApiError {
    pub status: HttpStatus,
    pub code: &'static str,
    pub message: String,
}

/// What an [`ApiError`] says.
#[verifier::ext_equal]
pub struct ApiErrorView {
    pub status: HttpStatus,
    pub code: Seq<char>,
    pub message: Seq<char>,
}

impl View for ApiError {
    type V = ApiErrorView;

    open spec fn view(&self) -> ApiErrorView {
        ApiErrorView { status: self.status, code: self.code@, message: self.message@ }
    }
}

/// The status that a failure of the runtime is answered with.
pub open spec fn backend_status(kind: BackendErrorKind) -> HttpStatus {
    match kind {
        BackendErrorKind::SandboxNotFound => HttpStatus::NotFound,
        BackendErrorKind::SandboxAlreadyExists => HttpStatus::Conflict,
        BackendErrorKind::SandboxStillRunning => HttpStatus::Conflict,
        BackendErrorKind::VolumeNotFound => HttpStatus::NotFound,
        BackendErrorKind::VolumeAlreadyExists => HttpStatus::Conflict,
        BackendErrorKind::InvalidConfig => HttpStatus::BadRequest,
        BackendErrorKind::Unsupported => HttpStatus::BadRequest,
        BackendErrorKind::ExecTimeout => HttpStatus::RequestTimeout,
        BackendErrorKind::Other => HttpStatus::InternalServerError,
    }
}

/// The code that a failure of the runtime is answered with.
pub open spec fn backend_code(kind: BackendErrorKind) -> Seq<char> {
    match kind {
        BackendErrorKind::SandboxNotFound => "sandbox_not_found"@,
        BackendErrorKind::SandboxAlreadyExists => "sandbox_already_exists"@,
        BackendErrorKind::SandboxStillRunning => "sandbox_still_running"@,
        BackendErrorKind::VolumeNotFound => "volume_not_found"@,
        BackendErrorKind::VolumeAlreadyExists => "volume_already_exists"@,
        BackendErrorKind::InvalidConfig => "invalid_config"@,
        BackendErrorKind::Unsupported => "unsupported"@,
        BackendErrorKind::ExecTimeout => "exec_timeout"@,
        BackendErrorKind::Other => "internal"@,
    }
}

/// How a failure of the runtime is answered.
pub open spec fn backend_refusal(error: BackendErrorView) -> ApiErrorView {
    ApiErrorView {
        status: backend_status(error.kind),
        code: backend_code(error.kind),
        message: error.message,
    }
}

/// Each kind of failure has a code of its own.
pub proof fn law_backend_codes_tell_kinds_apart(a: BackendErrorKind, b: BackendErrorKind)
    ensures
        backend_code(a) == backend_code(b) ==> a == b,
{
    reveal_strlit("sandbox_not_found");
    reveal_strlit("sandbox_already_exists");
    reveal_strlit("sandbox_still_running");
    reveal_strlit("volume_not_found");
    reveal_strlit("volume_already_exists");
    reveal_strlit("invalid_config");
    reveal_strlit("unsupported");
    reveal_strlit("exec_timeout");
    reveal_strlit("internal");
    assert("sandbox_not_found"@.len() == 17);
    assert("sandbox_already_exists"@.len() == 22);
    assert("sandbox_still_running"@.len() == 21 && "sandbox_still_running"@[0] == 's');
    assert("volume_not_found"@.len() == 16);
    assert("volume_already_exists"@.len() == 21 && "volume_already_exists"@[0] == 'v');
    assert("invalid_config"@.len() == 14);
    assert("unsupported"@.len() == 11);
    assert("exec_timeout"@.len() == 12);
    assert("internal"@.len() == 8);
}

/// A failure of the runtime is always answered with a client or server error that carries the
/// runtime's own text; "not found" is the answer exactly where a sandbox or volume is missing, and
/// the code of a missing sandbox comes with no other failure.
pub proof fn law_backend_refusals(error: BackendErrorView)
    ensures
        400 <= status_number(backend_refusal(error).status) < 600,
        backend_refusal(error).message == error.message,
        backend_refusal(error).status == HttpStatus::NotFound <==> error.kind
            == BackendErrorKind::SandboxNotFound || error.kind == BackendErrorKind::VolumeNotFound,
        backend_refusal(error).code == "sandbox_not_found"@ <==> error.kind
            == BackendErrorKind::SandboxNotFound,
{
    law_backend_codes_tell_kinds_apart(error.kind, BackendErrorKind::SandboxNotFound);
}

// What `from` gives is stated by its own `ensures`, over the texts: no function of the value
// itself is claimed.
impl FromSpecImpl<BackendError> for ApiError {
    open spec fn obeys_from_spec() -> bool {
        false
    }

    open spec fn from_spec(error: BackendError) -> ApiError {
        arbitrary()
    }
}

impl From<BackendError> for ApiError {
    fn from(error: BackendError) -> (refusal: ApiError)
        ensures
            refusal@ == backend_refusal(error@),
    {
        let (status, code): (HttpStatus, &'static str) = match error.kind {
            BackendErrorKind::SandboxNotFound => (HttpStatus::NotFound, "sandbox_not_found"),
            BackendErrorKind::SandboxAlreadyExists => {
                (HttpStatus::Conflict, "sandbox_already_exists")
            },
            BackendErrorKind::SandboxStillRunning => {
                (HttpStatus::Conflict, "sandbox_still_running")
            },
            BackendErrorKind::VolumeNotFound => (HttpStatus::NotFound, "volume_not_found"),
            BackendErrorKind::VolumeAlreadyExists => {
                (HttpStatus::Conflict, "volume_already_exists")
            },
            BackendErrorKind::InvalidConfig => (HttpStatus::BadRequest, "invalid_config"),
            BackendErrorKind::Unsupported => (HttpStatus::BadRequest, "unsupported"),
            BackendErrorKind::ExecTimeout => (HttpStatus::RequestTimeout, "exec_timeout"),
            BackendErrorKind::Other => (HttpStatus::InternalServerError, "internal"),
        };
        ApiError { status, code, message: error.message }
    }
}

/// Whether `answer` passes on what the runtime answered: its value, or its failure as a refusal.
pub open spec fn passes_on<T>(answer: Result<T, ApiError>, outcome: Result<T, BackendError>) -> bool {
    match outcome {
        Ok(value) => answer == Ok::<T, ApiError>(value),
        Err(error) => answer is Err && answer->Err_0@ == backend_refusal(error@),
    }
}

/// Passes on what the runtime answered: its value, or its failure as a refusal.
pub fn with_local_backend<T>(outcome: Result<T, BackendError>) -> (answer: Result<T, ApiError>)
    ensures
        passes_on(answer, outcome),
{
    match outcome {
        Ok(value) => Ok(value),
        Err(error) => Err(ApiError::from(error)),
    }
}

/// The error of a JSON document that could not be written or read.
#[verifier::external_type_specification]
#[verifier::external_body]
pub struct ExJsonError(serde_json::Error);

/// The text that `error` prints as: `to_string` of `serde_json::Error`. Nothing is said of the
/// text: where a stream failed it is that of the stream's own error, which may depend on the
/// machine.
#[verifier::external_body]
fn json_error_to_string(error: &serde_json::Error) -> (text: String) {
    error.to_string()
}

/// How a JSON failure that prints as `message` is answered.
pub open spec fn json_refusal(message: Seq<char>) -> ApiErrorView {
    ApiErrorView { status: HttpStatus::InternalServerError, code: "json"@, message }
}

/// How a protocol failure that prints as `message` is answered.
pub open spec fn protocol_refusal(message: Seq<char>) -> ApiErrorView {
    ApiErrorView { status: HttpStatus::BadRequest, code: "protocol"@, message }
}

impl ApiError {
    /// The refusal for a JSON failure that prints as `message`.
    pub fn json(message: String) -> (refusal: ApiError)
        ensures
            refusal@ == json_refusal(message@),
    {
        ApiError { status: HttpStatus::InternalServerError, code: "json", message }
    }

    /// Whether the refusal is that of a sandbox that does not exist.
    pub fn is_sandbox_not_found(&self) -> (r: bool)
        ensures
            r == (self@.status == HttpStatus::NotFound && self@.code == "sandbox_not_found"@),
    {
        self.status == HttpStatus::NotFound && same_text(self.code, "sandbox_not_found")
    }

    /// The status and the body that the refusal is sent as.
    pub fn into_response(self) -> (response: (u16, ErrorEnvelope))
        ensures
            response.0 == status_number(self.status),
            response.1.error.code@ == self@.code,
            response.1.error.message@ == self@.message,
    {
        (
            self.status.as_u16(),
            ErrorEnvelope { error: ErrorDetails { code: self.code, message: self.message } },
        )
    }
}

impl FromSpecImpl<serde_json::Error> for ApiError {
    open spec fn obeys_from_spec() -> bool {
        false
    }

    open spec fn from_spec(error: serde_json::Error) -> ApiError {
        arbitrary()
    }
}

impl From<serde_json::Error> for ApiError {
    fn from(error: serde_json::Error) -> (refusal: ApiError)
        ensures
            refusal@.status == HttpStatus::InternalServerError,
            refusal@.code == "json"@,
    {
        ApiError::json(json_error_to_string(&error))
    }
}

impl FromSpecImpl<ProtocolError> for ApiError {
    open spec fn obeys_from_spec() -> bool {
        false
    }

    open spec fn from_spec(error: ProtocolError) -> ApiError {
        arbitrary()
    }
}

impl From<ProtocolError> for ApiError {
    fn from(error: ProtocolError) -> (refusal: ApiError)
        ensures
            refusal@ == protocol_refusal(error.message@),
    {
        ApiError { status: HttpStatus::BadRequest, code: "protocol", message: error.message }
    }
}

/// Body of a refusal.
#[derive(Debug)]
pub struct ErrorEnvelope {
    pub error: ErrorDetails,
}

/// What the body of a refusal holds.
#[derive(Debug)]
pub struct ErrorDetails {
    pub code: &'static str,
    pub message: String,
}

/// The number and the code that each failure of the runtime is answered with; the message is the
/// runtime's own.
pub proof fn law_failures_have_their_answers(message: Seq<char>)
    ensures
        ({
            let answered = |kind: BackendErrorKind, number: u16, code: Seq<char>|
                {
                    let refusal = backend_refusal(BackendErrorView { kind, message });
                    &&& status_number(refusal.status) == number
                    &&& refusal.code == code
                    &&& refusal.message == message
                };
            &&& answered(BackendErrorKind::SandboxNotFound, 404, "sandbox_not_found"@)
            &&& answered(BackendErrorKind::SandboxAlreadyExists, 409, "sandbox_already_exists"@)
            &&& answered(BackendErrorKind::SandboxStillRunning, 409, "sandbox_still_running"@)
            &&& answered(BackendErrorKind::VolumeNotFound, 404, "volume_not_found"@)
            &&& answered(BackendErrorKind::VolumeAlreadyExists, 409, "volume_already_exists"@)
            &&& answered(BackendErrorKind::InvalidConfig, 400, "invalid_config"@)
            &&& answered(BackendErrorKind::Unsupported, 400, "unsupported"@)
            &&& answered(BackendErrorKind::ExecTimeout, 408, "exec_timeout"@)
            &&& answered(BackendErrorKind::Other, 500, "internal"@)
        }),
        status_number(json_refusal(message).status) == 500,
        json_refusal(message).code == "json"@,
        json_refusal(message).message == message,
        status_number(protocol_refusal(message).status) == 400,
        protocol_refusal(message).code == "protocol"@,
        protocol_refusal(message).message == message,
{
}

} // verus!
