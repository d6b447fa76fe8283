//! Sandbox endpoints: create, look up, start, stop, kill, drain and remove.
//!
//! Stopping, killing and draining run in stages, each of which takes what the runtime answered:
//! [`begin_operation`] after the lookup, [`after_operation`] after the operation itself, and
//! [`operation_response`] after the lookup that follows it.
use crate::backend::{
    opt_level_view, ConfigView, HandleView, LogLevel, SandboxConfig, SandboxHandle, SandboxStatus,
};
use crate::cloud::{
    CloudCreateSandboxRequest, CloudMessageResponse, CloudSandbox, CloudSandboxStatus,
    CreateRequestView, SandboxView,
};
use crate::convert::{
    answers_for, answers_terminal_for, cloud_request_from_config, cloud_request_from_handle,
    cloud_sandbox_from_handle, cloud_sandbox_terminal_from_handle, described_request,
    handle_request, is_live, law_answer_tells_of_the_sandbox, request_result_view, requested_config,
    sandbox_config_from_cloud_request,
};
use crate::error::{
    backend_refusal, law_backend_refusals, status_number, with_local_backend, ApiError,
    ApiErrorView, BackendError, BackendErrorKind, BackendErrorView, HttpStatus,
};
use crate::text::{joined, quoted, quoted_text};
use vstd::prelude::*;
use vstd::string::*;

verus! {

/// The view of what a lookup gave.
pub open spec fn found_view(found: Result<SandboxHandle, BackendError>) -> Result<
    HandleView,
    BackendErrorView,
> {
    match found {
        Ok(handle) => Ok(handle@),
        Err(error) => Err(error@),
    }
}

// -------------------------------------------------------------------------------------------
// Create and start
// -------------------------------------------------------------------------------------------

/// How a sandbox is to be created.
#[derive(Debug, Clone, Copy, PartialEq, Eq, Structural)]
pub struct CreateQuery {
    /// Whether the sandbox is to be started.
    pub start: bool,
}

/// A sandbox that is about to be created.
#[derive(Debug)]
pub struct Creation {
    /// The configuration that it is created with.
    pub config: SandboxConfig,
    /// Whether it starts though its start was not asked for.
    pub starts_unasked: bool,
}

/// What a [`Creation`] says.
#[verifier::ext_equal]
pub struct CreationView {
    pub config: ConfigView,
    pub starts_unasked: bool,
}

impl View for Creation {
    type V = CreationView;

    open spec fn view(&self) -> CreationView {
        CreationView { config: self.config@, starts_unasked: self.starts_unasked }
    }
}

/// The creation that `req` asks for, by what the runtime says of its name and reads its log level
/// as; or the refusal to create it.
pub open spec fn requested_creation(
    req: CreateRequestView,
    query: CreateQuery,
    name_check: Result<(), BackendErrorView>,
    level: Option<Seq<char>>,
) -> Result<CreationView, ApiErrorView> {
    match name_check {
        Ok(_) => Ok(
            CreationView {
                config: requested_config(req, level),
                starts_unasked: !query.start,
            },
        ),
        Err(error) => Err(backend_refusal(error)),
    }
}

/// The view of a creation or a refusal.
pub open spec fn creation_view(creation: Result<Creation, ApiError>) -> Result<
    CreationView,
    ApiErrorView,
> {
    match creation {
        Ok(creation) => Ok(creation@),
        Err(refusal) => Err(refusal@),
    }
}

/// Begins the creation of the sandbox that `req` asks for. The runtime starts every sandbox that
/// it creates, so the query does not change what is created.
pub fn create_sandbox(
    req: &CloudCreateSandboxRequest,
    query: &CreateQuery,
    name_check: Result<(), BackendError>,
    level: Option<LogLevel>,
) -> (creation: Result<Creation, ApiError>)
    ensures
        creation_view(creation) == requested_creation(
            req@,
            *query,
            operated_view(name_check),
            opt_level_view(level),
        ),
{
    match sandbox_config_from_cloud_request(req, name_check, level) {
        Ok(config) => Ok(Creation { config, starts_unasked: !query.start }),
        Err(refusal) => Err(refusal),
    }
}

/// Whether `answer` answers the creation of a sandbox by `req` and `query`, where `created` is what the
/// runtime made of it and `found` is what the lookup after it gave.
pub open spec fn answers_creation(
    answer: Result<SandboxView, ApiErrorView>,
    req: CreateRequestView,
    query: CreateQuery,
    name_check: Result<(), BackendErrorView>,
    level: Option<Seq<char>>,
    created: Result<(), BackendErrorView>,
    found: Result<HandleView, BackendErrorView>,
) -> bool {
    match requested_creation(req, query, name_check, level) {
        Err(refusal) => answer == Err::<SandboxView, ApiErrorView>(refusal),
        Ok(_) => match created {
            Err(error) => answer == Err::<SandboxView, ApiErrorView>(backend_refusal(error)),
            Ok(_) => answers_live(answer, found, req),
        },
    }
}

/// Whether `answer` answers for a created or started sandbox, where `found` is what the lookup
/// under its name gave.
pub open spec fn answers_live(
    answer: Result<SandboxView, ApiErrorView>,
    found: Result<HandleView, BackendErrorView>,
    req: CreateRequestView,
) -> bool {
    match found {
        Ok(handle) => answer is Ok && answers_for(answer->Ok_0, handle, req),
        Err(error) => answer == Err::<SandboxView, ApiErrorView>(backend_refusal(error)),
    }
}

/// The answer to a created or started sandbox: what the lookup `found` under the name in `req`.
pub fn cloud_sandbox_from_live(
    found: Result<SandboxHandle, BackendError>,
    req: &CloudCreateSandboxRequest,
) -> (answer: Result<CloudSandbox, ApiError>)
    ensures
        answers_live(answer_view(answer), found_view(found), req@),
{
    match found {
        Ok(handle) => Ok(cloud_sandbox_from_handle(&handle, req.clone())),
        Err(error) => Err(ApiError::from(error)),
    }
}

/// Two creations by the same request, where the runtime answers the same, come to the same: they
/// hand the runtime the same configuration and are answered alike, whether or not a start was
/// asked for. Only an unknown creation time, for which the present stands in, may differ.
pub proof fn law_create_does_not_depend_on_start(
    req: CreateRequestView,
    query: CreateQuery,
    other_query: CreateQuery,
    name_check: Result<(), BackendErrorView>,
    level: Option<Seq<char>>,
    created: Result<(), BackendErrorView>,
    found: Result<HandleView, BackendErrorView>,
    answer: Result<SandboxView, ApiErrorView>,
    other: Result<SandboxView, ApiErrorView>,
)
    requires
        answers_creation(answer, req, query, name_check, level, created, found),
        answers_creation(other, req, other_query, name_check, level, created, found),
    ensures
        match requested_creation(req, query, name_check, level) {
            Ok(creation) => {
                let again = requested_creation(req, other_query, name_check, level);
                again is Ok && again->Ok_0.config == creation.config
            },
            Err(refusal) => requested_creation(req, other_query, name_check, level) == Err::<
                CreationView,
                ApiErrorView,
            >(refusal),
        },
        answer is Ok <==> other is Ok,
        answer is Err || found->Ok_0.created_at is Some ==> answer == other,
        answer is Ok ==> other->Ok_0 == (SandboxView {
            created_at: other->Ok_0.created_at,
            ..answer->Ok_0
        }),
{
}

/// A sandbox is created exactly where the runtime accepts its name, by the configuration that holds
/// what the request holds; else the runtime's own text is told.
pub proof fn law_creation_holds_the_request(
    req: CreateRequestView,
    query: CreateQuery,
    name_check: Result<(), BackendErrorView>,
    level: Option<Seq<char>>,
)
    ensures
        requested_creation(req, query, name_check, level) is Ok <==> name_check is Ok,
        requested_creation(req, query, name_check, level) matches Ok(creation) ==> {
            &&& creation.config == requested_config(req, level)
            &&& creation.config.name == req.name
            &&& creation.config.entrypoint == req.entrypoint
            &&& creation.config.env == req.env
            &&& creation.config.scripts == req.scripts
            &&& creation.starts_unasked <==> !query.start
        },
        name_check matches Err(error) ==> requested_creation(
            req,
            query,
            name_check,
            level,
        )->Err_0.message == error.message,
{
}

/// A created sandbox is shown with the request as it was sent, though the runtime may not know its
/// log level, and under the requested name. Where the name is refused nothing is created and the
/// answer is the refusal.
pub proof fn law_created_sandbox_shows_its_request(
    req: CreateRequestView,
    query: CreateQuery,
    name_check: Result<(), BackendErrorView>,
    level: Option<Seq<char>>,
    created: Result<(), BackendErrorView>,
    found: Result<HandleView, BackendErrorView>,
    answer: Result<SandboxView, ApiErrorView>,
)
    requires
        answers_creation(answer, req, query, name_check, level, created, found),
        found matches Ok(handle) ==> handle.name == req.name,
    ensures
        answer matches Ok(sandbox) ==> sandbox.config == req && sandbox.name == req.name,
        answer is Ok <==> name_check is Ok && created is Ok && found is Ok,
        name_check matches Err(error) ==> {
            &&& requested_creation(req, query, name_check, level) is Err
            &&& answer == Err::<SandboxView, ApiErrorView>(backend_refusal(error))
        },
{
}

/// The request of the sandbox that was started, by the configuration that the runtime started it
/// with.
pub fn started_request(started: Result<SandboxConfig, BackendError>) -> (req: Result<
    CloudCreateSandboxRequest,
    ApiError,
>)
    ensures
        match started {
            Ok(config) => request_result_view(req) == described_request(config@),
            Err(error) => req is Err && req->Err_0@ == backend_refusal(error@),
        },
{
    match started {
        Ok(config) => cloud_request_from_config(&config),
        Err(error) => Err(ApiError::from(error)),
    }
}

/// What a lookup comes to: the sandbox and its request, or a refusal.
pub open spec fn lookup(found: Result<HandleView, BackendErrorView>) -> Result<
    (HandleView, CreateRequestView),
    ApiErrorView,
> {
    match found {
        Ok(handle) => match handle_request(handle) {
            Ok(req) => Ok((handle, req)),
            Err(refusal) => Err(refusal),
        },
        Err(error) => Err(backend_refusal(error)),
    }
}

/// The answer to a lookup of a sandbox.
pub fn get_sandbox_by_name(found: Result<SandboxHandle, BackendError>) -> (answer: Result<
    CloudSandbox,
    ApiError,
>)
    ensures
        match lookup(found_view(found)) {
            Ok((handle, req)) => answer is Ok && answers_for(answer->Ok_0@, handle, req),
            Err(refusal) => answer is Err && answer->Err_0@ == refusal,
        },
{
    let pending = match begin_operation(found) {
        Ok(pending) => pending,
        Err(refusal) => {
            return Err(refusal);
        },
    };
    Ok(cloud_sandbox_from_handle(&pending.handle, pending.req))
}

// -------------------------------------------------------------------------------------------
// Stop, kill and drain
// -------------------------------------------------------------------------------------------

/// A sandbox that an operation is about to be carried out on.
#[derive(Debug)]
pub struct PendingOperation {
    /// The sandbox as it was looked up.
    pub handle: SandboxHandle,
    /// The request that it was created by.
    pub req: CloudCreateSandboxRequest,
}

/// Begins an operation on the sandbox that was looked up.
pub fn begin_operation(found: Result<SandboxHandle, BackendError>) -> (pending: Result<
    PendingOperation,
    ApiError,
>)
    ensures
        match lookup(found_view(found)) {
            Ok((handle, req)) => {
                &&& pending is Ok
                &&& pending->Ok_0.handle@ == handle
                &&& pending->Ok_0.req@ == req
            },
            Err(refusal) => pending is Err && pending->Err_0@ == refusal,
        },
{
    match found {
        Ok(handle) => match cloud_request_from_handle(&handle) {
            Ok(req) => Ok(PendingOperation { handle, req }),
            Err(refusal) => Err(refusal),
        },
        Err(error) => Err(ApiError::from(error)),
    }
}

/// What is answered after a stage of an operation.
pub enum Outcome {
    /// The sandbox is still to be looked up again.
    LookUp,
    /// The sandbox as it was looked up again.
    Show(HandleView),
    /// The sandbox is gone, as an ephemeral one may be.
    Gone,
    /// A refusal.
    Refuse(ApiErrorView),
}

/// Whether a failure means that a sandbox is gone that was free to go.
pub open spec fn is_gone(error: BackendErrorView, ephemeral: bool) -> bool {
    error.kind == BackendErrorKind::SandboxNotFound && ephemeral
}

/// What follows the operation itself.
pub open spec fn operation_outcome(
    operated: Result<(), BackendErrorView>,
    ephemeral: bool,
) -> Outcome {
    match operated {
        Ok(_) => Outcome::LookUp,
        Err(error) => if is_gone(error, ephemeral) {
            Outcome::Gone
        } else {
            Outcome::Refuse(backend_refusal(error))
        },
    }
}

/// What follows the lookup after the operation.
pub open spec fn refresh_outcome(
    refreshed: Result<HandleView, BackendErrorView>,
    ephemeral: bool,
) -> Outcome {
    match refreshed {
        Ok(handle) => Outcome::Show(handle),
        Err(error) => if is_gone(error, ephemeral) {
            Outcome::Gone
        } else {
            Outcome::Refuse(backend_refusal(error))
        },
    }
}

/// Whether `answer` is an answer for `outcome`, where `handle` and `req` are the sandbox as the
/// operation found it and a sandbox that is gone is shown with the status `missing`.
pub open spec fn answers_outcome(
    answer: Result<SandboxView, ApiErrorView>,
    outcome: Outcome,
    handle: HandleView,
    req: CreateRequestView,
    missing: CloudSandboxStatus,
) -> bool {
    match outcome {
        Outcome::LookUp => false,
        Outcome::Show(refreshed) => answer is Ok && answers_for(answer->Ok_0, refreshed, req),
        Outcome::Gone => answer is Ok && answers_terminal_for(answer->Ok_0, handle, req, missing),
        Outcome::Refuse(refusal) => answer == Err::<SandboxView, ApiErrorView>(refusal),
    }
}

/// The view of an answer.
pub open spec fn answer_view(answer: Result<CloudSandbox, ApiError>) -> Result<
    SandboxView,
    ApiErrorView,
> {
    match answer {
        Ok(sandbox) => Ok(sandbox@),
        Err(refusal) => Err(refusal@),
    }
}

/// The view of what an operation gave.
pub open spec fn operated_view(operated: Result<(), BackendError>) -> Result<(), BackendErrorView> {
    match operated {
        Ok(_) => Ok(()),
        Err(error) => Err(error@),
    }
}

/// What is to be done after an operation.
#[derive(Debug)]
pub enum AfterOperation {
    /// The sandbox is looked up again.
    LookUp(PendingOperation),
    /// The answer is known.
    Answer(Result<CloudSandbox, ApiError>),
}

/// Decides what follows a stop, kill or drain of the sandbox `pending`, of which the runtime
/// reported `operated`.
pub fn after_operation(pending: PendingOperation, operated: Result<(), BackendError>) -> (next:
    AfterOperation)
    ensures
        ({
            let outcome = operation_outcome(operated_view(operated), pending.req@.ephemeral);
            match next {
                AfterOperation::LookUp(kept) => outcome == Outcome::LookUp && kept == pending,
                AfterOperation::Answer(answer) => answers_outcome(
                    answer_view(answer),
                    outcome,
                    pending.handle@,
                    pending.req@,
                    CloudSandboxStatus::Stopped,
                ),
            }
        }),
{
    match operated {
        Ok(_) => AfterOperation::LookUp(pending),
        Err(error) => {
            if error.kind == BackendErrorKind::SandboxNotFound && pending.req.ephemeral {
                AfterOperation::Answer(
                    Ok(
                        cloud_sandbox_terminal_from_handle(
                            &pending.handle,
                            pending.req,
                            CloudSandboxStatus::Stopped,
                        ),
                    ),
                )
            } else {
                AfterOperation::Answer(Err(ApiError::from(error)))
            }
        },
    }
}

/// The answer to an operation on the sandbox `pending`, by what the lookup after it gave. A
/// sandbox that is gone is shown with the status `missing`.
pub fn lifecycle_response_after_operation(
    pending: PendingOperation,
    refreshed: Result<SandboxHandle, BackendError>,
    missing: CloudSandboxStatus,
) -> (answer: Result<CloudSandbox, ApiError>)
    ensures
        answers_outcome(
            answer_view(answer),
            refresh_outcome(found_view(refreshed), pending.req@.ephemeral),
            pending.handle@,
            pending.req@,
            missing,
        ),
{
    match with_local_backend(refreshed) {
        Ok(handle) => Ok(cloud_sandbox_from_handle(&handle, pending.req)),
        Err(refusal) => {
            proof {
                law_backend_refusals(refreshed->Err_0@);
            }
            if refusal.is_sandbox_not_found() && pending.req.ephemeral {
                Ok(cloud_sandbox_terminal_from_handle(&pending.handle, pending.req, missing))
            } else {
                Err(refusal)
            }
        },
    }
}

/// The answer to a stop, kill or drain of the sandbox `pending` that succeeded, by what the lookup
/// after it gave. A sandbox that is gone is shown as stopped.
pub fn operation_response(
    pending: PendingOperation,
    refreshed: Result<SandboxHandle, BackendError>,
) -> (answer: Result<CloudSandbox, ApiError>)
    ensures
        answers_outcome(
            answer_view(answer),
            refresh_outcome(found_view(refreshed), pending.req@.ephemeral),
            pending.handle@,
            pending.req@,
            CloudSandboxStatus::Stopped,
        ),
{
    lifecycle_response_after_operation(pending, refreshed, CloudSandboxStatus::Stopped)
}

/// What a whole operation comes to, by what the runtime answered at each stage.
pub open spec fn whole_outcome(
    ephemeral: bool,
    operated: Result<(), BackendErrorView>,
    refreshed: Result<HandleView, BackendErrorView>,
) -> Outcome {
    match operation_outcome(operated, ephemeral) {
        Outcome::LookUp => refresh_outcome(refreshed, ephemeral),
        outcome => outcome,
    }
}

/// Stopping an ephemeral sandbox succeeds though the sandbox is gone, whether the operation itself
/// or the lookup after it finds it missing: the answer is the sandbox as it was found, with the
/// status "stopped" and a stop time.
pub proof fn law_ephemeral_sandbox_may_be_gone(
    operated: Result<(), BackendErrorView>,
    refreshed: Result<HandleView, BackendErrorView>,
    answer: Result<SandboxView, ApiErrorView>,
    handle: HandleView,
    req: CreateRequestView,
)
    requires
        req.ephemeral,
        match operated {
            Ok(_) => refreshed is Err && refreshed->Err_0.kind
                == BackendErrorKind::SandboxNotFound,
            Err(error) => error.kind == BackendErrorKind::SandboxNotFound,
        },
        answers_outcome(
            answer,
            whole_outcome(req.ephemeral, operated, refreshed),
            handle,
            req,
            CloudSandboxStatus::Stopped,
        ),
    ensures
        answer is Ok,
        answer->Ok_0.name == handle.name,
        answer->Ok_0.status == CloudSandboxStatus::Stopped,
        answer->Ok_0.stopped_at is Some,
        answer->Ok_0.config == req,
{
}

/// A sandbox that is not ephemeral is never taken for gone: if it is missing the answer is the
/// refusal 404 `sandbox_not_found`.
pub proof fn law_lasting_sandbox_is_missed(
    operated: Result<(), BackendErrorView>,
    refreshed: Result<HandleView, BackendErrorView>,
    answer: Result<SandboxView, ApiErrorView>,
    handle: HandleView,
    req: CreateRequestView,
)
    requires
        !req.ephemeral,
        match operated {
            Ok(_) => refreshed is Err && refreshed->Err_0.kind
                == BackendErrorKind::SandboxNotFound,
            Err(error) => error.kind == BackendErrorKind::SandboxNotFound,
        },
        answers_outcome(
            answer,
            whole_outcome(req.ephemeral, operated, refreshed),
            handle,
            req,
            CloudSandboxStatus::Stopped,
        ),
    ensures
        answer is Err,
        answer->Err_0.status == HttpStatus::NotFound,
        answer->Err_0.code == "sandbox_not_found"@,
{
}

/// An operation that succeeds is answered by the sandbox as it was found again, with its request,
/// and by nothing else; a failure of the operation or of the lookup after it is answered by the
/// runtime's own text, unless it is that an ephemeral sandbox is missing.
pub proof fn law_operation_tells_what_came_of_it(
    operated: Result<(), BackendErrorView>,
    refreshed: Result<HandleView, BackendErrorView>,
    answer: Result<SandboxView, ApiErrorView>,
    handle: HandleView,
    req: CreateRequestView,
)
    requires
        answers_outcome(
            answer,
            whole_outcome(req.ephemeral, operated, refreshed),
            handle,
            req,
            CloudSandboxStatus::Stopped,
        ),
    ensures
        operated is Ok && refreshed is Ok ==> {
            let found = refreshed->Ok_0;
            &&& answer is Ok
            &&& answer->Ok_0.name == found.name
            &&& answer->Ok_0.config == req
            &&& answer->Ok_0.last_error == found.last_error
            &&& answer->Ok_0.status == CloudSandboxStatus::Stopped <==> found.status
                == SandboxStatus::Stopped
            &&& answer->Ok_0.status == CloudSandboxStatus::Failed <==> found.status
                == SandboxStatus::Crashed
            &&& answer->Ok_0.status == CloudSandboxStatus::Stopping <==> found.status
                == SandboxStatus::Draining
        },
        operated matches Err(error) ==> (error.kind != BackendErrorKind::SandboxNotFound
            || !req.ephemeral) ==> {
            &&& answer is Err
            &&& answer->Err_0.message == error.message
            &&& answer->Err_0 == backend_refusal(error)
        },
        refreshed matches Err(error) ==> operated is Ok && (error.kind
            != BackendErrorKind::SandboxNotFound || !req.ephemeral) ==> {
            &&& answer is Err
            &&& answer->Err_0.message == error.message
            &&& answer->Err_0 == backend_refusal(error)
        },
{
    if operated is Ok && refreshed is Ok {
        law_answer_tells_of_the_sandbox(answer->Ok_0, refreshed->Ok_0, req);
    }
}

/// A lookup comes to a sandbox exactly where the runtime found one whose configuration can be read
/// and runs an OCI image: to that sandbox, and to the request for that configuration. A failure of
/// the runtime is told by its own text.
pub proof fn law_lookup_comes_to_what_was_found(found: Result<HandleView, BackendErrorView>)
    ensures
        lookup(found) is Ok <==> found is Ok && found->Ok_0.config is Ok
            && found->Ok_0.config->Ok_0.image is Oci,
        lookup(found) is Ok ==> {
            let (handle, req) = lookup(found)->Ok_0;
            &&& handle == found->Ok_0
            &&& req.name == handle.config->Ok_0.name
            &&& req.ephemeral == handle.config->Ok_0.ephemeral
            &&& described_request(handle.config->Ok_0) == Ok::<CreateRequestView, ApiErrorView>(req)
        },
        found matches Err(error) ==> lookup(found) is Err && lookup(found)->Err_0.message
            == error.message,
        found is Ok && found->Ok_0.config is Err ==> lookup(found) is Err && lookup(
            found,
        )->Err_0.message == found->Ok_0.config->Err_0.message,
{
}

/// An operation always comes to an answer: a sandbox, or a refusal that is the runtime's own
/// failure.
pub proof fn law_operation_is_answered(
    ephemeral: bool,
    operated: Result<(), BackendErrorView>,
    refreshed: Result<HandleView, BackendErrorView>,
)
    ensures
        ({
            let outcome = whole_outcome(ephemeral, operated, refreshed);
            &&& outcome != Outcome::LookUp
            &&& outcome matches Outcome::Refuse(refusal) ==> {
                ||| operated is Err && refusal == backend_refusal(operated->Err_0)
                ||| operated is Ok && refreshed is Err && refusal == backend_refusal(
                    refreshed->Err_0,
                )
            }
        }),
{
}

// -------------------------------------------------------------------------------------------
// Remove
// -------------------------------------------------------------------------------------------

/// The answer to the removal of the sandbox `name`, of which the runtime reported `removed`.
pub open spec fn removal_answer(
    name: Seq<char>,
    removed: Result<(), BackendErrorView>,
) -> Result<Seq<char>, ApiErrorView> {
    match removed {
        Ok(_) => Ok("sandbox "@ + name + " removed"@),
        Err(error) => if error.kind == BackendErrorKind::SandboxNotFound {
            Ok("sandbox "@ + name + " already removed"@)
        } else {
            Err(backend_refusal(error))
        },
    }
}

/// The view of a message or a refusal.
pub open spec fn message_view(answer: Result<CloudMessageResponse, ApiError>) -> Result<
    Seq<char>,
    ApiErrorView,
> {
    match answer {
        Ok(response) => Ok(response.message@),
        Err(refusal) => Err(refusal@),
    }
}

/// The answer to the removal of the sandbox `name`.
pub fn remove_sandbox_by_name(name: &str, removed: Result<(), BackendError>) -> (answer: Result<
    CloudMessageResponse,
    ApiError,
>)
    ensures
        message_view(answer) == removal_answer(name@, operated_view(removed)),
{
    match with_local_backend(removed) {
        Ok(_) => Ok(CloudMessageResponse { message: joined("sandbox ", name, " removed") }),
        Err(refusal) => {
            proof {
                law_backend_refusals(removed->Err_0@);
            }
            if refusal.is_sandbox_not_found() {
                Ok(CloudMessageResponse { message: joined("sandbox ", name, " already removed") })
            } else {
                Err(refusal)
            }
        },
    }
}

/// The answer to a removal names the sandbox, and tells whether it was removed now or before; any
/// other failure is told by the runtime's own text.
pub proof fn law_removal_is_told(name: Seq<char>, error: BackendErrorView)
    ensures
        removal_answer(name, Ok(())) == Ok::<Seq<char>, ApiErrorView>(
            "sandbox "@ + name + " removed"@,
        ),
        error.kind == BackendErrorKind::SandboxNotFound ==> removal_answer(name, Err(error)) == Ok::<
            Seq<char>,
            ApiErrorView,
        >("sandbox "@ + name + " already removed"@),
        error.kind != BackendErrorKind::SandboxNotFound ==> removal_answer(name, Err(error)) is Err
            && removal_answer(name, Err(error))->Err_0.message == error.message,
{
}

/// Removal may be repeated: whether the sandbox is removed now or was gone before, the answer is
/// not a refusal; and a refusal to remove is never that the sandbox is missing.
pub proof fn law_removal_may_be_repeated(name: Seq<char>, removed: Result<(), BackendErrorView>)
    ensures
        removed is Ok || removed->Err_0.kind == BackendErrorKind::SandboxNotFound
            ==> removal_answer(name, removed) is Ok,
        removal_answer(name, removed) is Err ==> removal_answer(name, removed)->Err_0.code
            != "sandbox_not_found"@,
{
    if removed is Err {
        law_backend_refusals(removed->Err_0);
    }
}

// -------------------------------------------------------------------------------------------
// Live sandboxes
// -------------------------------------------------------------------------------------------

/// The name of a status in messages.
pub open spec fn status_label(status: SandboxStatus) -> Seq<char> {
    match status {
        SandboxStatus::Created => "Created"@,
        SandboxStatus::Starting => "Starting"@,
        SandboxStatus::Running => "Running"@,
        SandboxStatus::Draining => "Draining"@,
        SandboxStatus::Paused => "Paused"@,
        SandboxStatus::Stopped => "Stopped"@,
        SandboxStatus::Crashed => "Crashed"@,
    }
}

fn status_text(status: SandboxStatus) -> (label: &'static str)
    ensures
        label@ == status_label(status),
{
    match status {
        SandboxStatus::Created => "Created",
        SandboxStatus::Starting => "Starting",
        SandboxStatus::Running => "Running",
        SandboxStatus::Draining => "Draining",
        SandboxStatus::Paused => "Paused",
        SandboxStatus::Stopped => "Stopped",
        SandboxStatus::Crashed => "Crashed",
    }
}

/// The message that a sandbox is not running, where `quoted_name` is its name in quotes.
pub open spec fn not_running_message(quoted_name: Seq<char>, status: SandboxStatus) -> Seq<char> {
    "sandbox "@ + quoted_name + " is not running (status: "@ + status_label(status) + ")"@
}

/// The message that a sandbox is not running, where `quoted_name` is its name in quotes.
pub fn not_running(quoted_name: &str, status: SandboxStatus) -> (message: String)
    ensures
        message@ == not_running_message(quoted_name@, status),
{
    let mut message = joined("sandbox ", quoted_name, " is not running (status: ");
    message.append(status_text(status));
    message.append(")");
    message
}

/// The message names the sandbox and the status that it is in.
pub proof fn law_message_names_sandbox_and_status(quoted_name: Seq<char>)
    ensures
        ({
            let told = |status: SandboxStatus, label: Seq<char>|
                not_running_message(quoted_name, status) == "sandbox "@ + quoted_name
                    + " is not running (status: "@ + label + ")"@;
            &&& told(SandboxStatus::Created, "Created"@)
            &&& told(SandboxStatus::Starting, "Starting"@)
            &&& told(SandboxStatus::Paused, "Paused"@)
            &&& told(SandboxStatus::Stopped, "Stopped"@)
            &&& told(SandboxStatus::Crashed, "Crashed"@)
        }),
{
}

/// Admits a sandbox to the file endpoints, which need it live; else tells why it is not.
pub fn live_sandbox_by_id(name: &str, status: SandboxStatus) -> (r: Result<(), String>)
    ensures
        r is Ok <==> is_live(status),
        r is Ok <==> status == SandboxStatus::Running || status == SandboxStatus::Draining,
        r matches Err(message) ==> message@ == not_running_message(quoted_text(name@), status),
{
    match status {
        SandboxStatus::Running | SandboxStatus::Draining => Ok(()),
        _ => {
            let quoted_name = quoted(name);
            Err(not_running(quoted_name.as_str(), status))
        },
    }
}

/// The refusal to use a sandbox that is not live, where `printed` is what the runtime's error with
/// the message of [`live_sandbox_by_id`] prints as.
pub open spec fn not_live(printed: Seq<char>) -> ApiErrorView {
    backend_refusal(BackendErrorView { kind: BackendErrorKind::Other, message: printed })
}

/// The refusal to use a sandbox that is not live, where `printed` is what the runtime's error with
/// the message of [`live_sandbox_by_id`] prints as.
pub fn not_live_refusal(printed: String) -> (refusal: ApiError)
    ensures
        refusal@ == not_live(printed@),
{
    ApiError::from(BackendError { kind: BackendErrorKind::Other, message: printed })
}

/// The refusal to use a sandbox of the status `status`, if it is refused; `connected` is what the
/// runtime makes of a connection to a live one.
pub open spec fn use_refusal(
    status: SandboxStatus,
    connected: Result<(), BackendErrorView>,
    printed: Seq<char>,
) -> Option<ApiErrorView> {
    if !is_live(status) {
        Some(not_live(printed))
    } else {
        match connected {
            Ok(_) => None,
            Err(error) => Some(backend_refusal(error)),
        }
    }
}

/// A sandbox is used exactly where it is live and can be connected to. One that is not live is
/// refused with the status 500 and the code `internal`, whatever a connection would have come to.
pub proof fn law_only_live_sandboxes_are_used(
    status: SandboxStatus,
    connected: Result<(), BackendErrorView>,
    printed: Seq<char>,
)
    ensures
        use_refusal(status, connected, printed) is None <==> is_live(status) && connected is Ok,
        !is_live(status) ==> {
            let refusal = use_refusal(status, connected, printed)->0;
            &&& status_number(refusal.status) == 500
            &&& refusal.code == "internal"@
            &&& refusal.message == printed
        },
{
}

} // verus!
