//! Conversions between the local runtime's view and the cloud contract.
use crate::backend::{
    env_view, opt_level_view, ConfigView, EnvVar, FsEntry, FsEntryKind, FsMetadata, HandleView,
    LogLevel, OciRootfsSource, RootfsSource, RootfsView, SandboxConfig, SandboxHandle,
    SandboxMetrics, SandboxPolicy, SandboxResources, SandboxRuntimeOptions, SandboxSpec,
    SandboxStatus, VolumeHandle, VolumeHandleView,
};
use crate::cloud::{
    CloudCreateSandboxRequest, CloudFsEntry, CloudFsEntryKind, CloudFsMetadata, CloudSandbox,
    CloudSandboxMetrics, CloudSandboxStatus, CloudVolume, CreateRequestView, SandboxView,
    VolumeKind, VolumeView,
};
use crate::error::{backend_refusal, ApiError, ApiErrorView, BackendError, HttpStatus};
use crate::string_map::{
    collected, entries_view, keys_distinct, law_collected_of_distinct, law_last_value_counts,
    StringMap,
};
use crate::text::{copy_opt_text, copy_opt_texts, opt_texts_view, texts_view};
use crate::time::{is_instant, now, Timestamp};
use vstd::prelude::*;
use vstd::string::*;

verus! {

// -------------------------------------------------------------------------------------------
// Create requests and configurations
// -------------------------------------------------------------------------------------------

/// The configuration that `req` asks for, where `level` is what the runtime reads the requested
/// log level as.
pub open spec fn requested_config(req: CreateRequestView, level: Option<Seq<char>>) -> ConfigView {
    ConfigView {
        name: req.name,
        image: RootfsView::Oci { reference: req.image, upper_size_mib: None },
        cpus: req.vcpus,
        memory_mib: req.memory_mib,
        workdir: req.workdir,
        shell: req.shell,
        scripts: req.scripts,
        entrypoint: req.entrypoint,
        hostname: req.hostname,
        user: req.user,
        log_level: if req.log_level is Some {
            level
        } else {
            None
        },
        env: req.env,
        ephemeral: req.ephemeral,
        max_duration_secs: req.max_duration_secs,
        idle_timeout_secs: req.idle_timeout_secs,
    }
}

/// The environment variables that `env` holds.
fn env_vars(env: &StringMap) -> (vars: Vec<EnvVar>)
    ensures
        env_view(vars@) == env.entries(),
{
    let mut vars: Vec<EnvVar> = Vec::new();
    let n = env.len();
    let mut i: usize = 0;
    while i < n
        invariant
            vars.len() == i <= n,
            n == env.entries().len(),
            forall|j: int| 0 <= j < i ==> #[trigger] env_view(vars@)[j] == env.entries()[j],
        decreases n - i,
    {
        let (key, value) = env.entry(i);
        let ghost before = vars@;
        vars.push(EnvVar { key: key.to_string(), value: value.to_string() });
        assert forall|j: int| 0 <= j < i + 1 implies #[trigger] env_view(vars@)[j]
            == env.entries()[j] by {
            if j < i {
                assert(env_view(before)[j] == env.entries()[j]);
            }
        }
        i = i + 1;
    }
    assert(env_view(vars@) =~= env.entries());
    vars
}

/// The map that `env` sets one variable after another.
fn collect_env(env: &Vec<EnvVar>) -> (map: StringMap)
    ensures
        map.entries() == collected(env_view(env@)),
{
    let mut map = StringMap::new();
    let mut i: usize = 0;
    assert(env_view(env@).take(0) =~= Seq::empty());
    while i < env.len()
        invariant
            i <= env.len(),
            map.entries() == collected(env_view(env@).take(i as int)),
        decreases env.len() - i,
    {
        let var = &env[i];
        map.insert(var.key.clone(), var.value.clone());
        proof {
            let pairs = env_view(env@).take(i + 1);
            assert(pairs.drop_last() =~= env_view(env@).take(i as int));
            assert(pairs.last() == env_view(env@)[i as int]);
        }
        i = i + 1;
    }
    assert(env_view(env@).take(i as int) =~= env_view(env@));
    map
}

/// Whether two lists of strings hold the same words in the same order.
pub open spec fn same_words(a: Option<Vec<String>>, b: Option<Vec<String>>) -> bool {
    match (a, b) {
        (Some(a), Some(b)) => {
            &&& a@.len() == b@.len()
            &&& forall|i: int| 0 <= i < a@.len() ==> (#[trigger] a@[i])@ == b@[i]@
        },
        (None, None) => true,
        _ => false,
    }
}

/// Whether two optional strings are both absent or the same text.
pub open spec fn same_option(a: Option<String>, b: Option<String>) -> bool {
    match (a, b) {
        (Some(a), Some(b)) => a@ == b@,
        (None, None) => true,
        _ => false,
    }
}

/// Whether the configuration holds field by field what the request holds.
pub open spec fn holds_request(config: SandboxConfig, req: CloudCreateSandboxRequest) -> bool {
    let spec = config.spec;
    &&& spec.name@ == req.name@
    &&& spec.image matches RootfsSource::Oci(image) && image.reference@ == req.image@
        && image.upper_size_mib is None
    &&& spec.resources.cpus == req.vcpus
    &&& spec.resources.memory_mib == req.memory_mib
    &&& same_option(spec.runtime.workdir, req.workdir)
    &&& same_option(spec.runtime.shell, req.shell)
    &&& same_words(spec.runtime.entrypoint, req.entrypoint)
    &&& same_option(spec.runtime.hostname, req.hostname)
    &&& same_option(spec.runtime.user, req.user)
    &&& spec.runtime.scripts.entries() == req.scripts.entries()
    &&& spec.env@.len() == req.env.entries().len()
    &&& forall|i: int|
        0 <= i < spec.env@.len() ==> (#[trigger] spec.env@[i]).key@ == req.env.entries()[i].0
            && spec.env@[i].value@ == req.env.entries()[i].1
    &&& spec.lifecycle.ephemeral == req.ephemeral
    &&& spec.lifecycle.max_duration_secs == req.max_duration_secs
    &&& spec.lifecycle.idle_timeout_secs == req.idle_timeout_secs
}

/// Whether the request shows field by field what the configuration holds; of a variable that is
/// set more than once it shows the last value.
pub open spec fn shows_config(req: CloudCreateSandboxRequest, config: SandboxConfig) -> bool {
    let spec = config.spec;
    &&& req.name@ == spec.name@
    &&& spec.image matches RootfsSource::Oci(image) && req.image@ == image.reference@
    &&& req.vcpus == spec.resources.cpus
    &&& req.memory_mib == spec.resources.memory_mib
    &&& same_option(req.workdir, spec.runtime.workdir)
    &&& same_option(req.shell, spec.runtime.shell)
    &&& same_words(req.entrypoint, spec.runtime.entrypoint)
    &&& same_option(req.hostname, spec.runtime.hostname)
    &&& same_option(req.user, spec.runtime.user)
    &&& match (req.log_level, spec.runtime.log_level) {
        (Some(shown), Some(level)) => shown@ == level.name@,
        (None, None) => true,
        _ => false,
    }
    &&& req.scripts.entries() == spec.runtime.scripts.entries()
    &&& forall|i: int|
        0 <= i < spec.env@.len() && (forall|j: int|
            i < j < spec.env@.len() ==> (#[trigger] spec.env@[j]).key@ != spec.env@[i].key@)
            ==> req.env.entries().contains(
            ((#[trigger] spec.env@[i]).key@, spec.env@[i].value@),
        )
    &&& req.ephemeral == spec.lifecycle.ephemeral
    &&& req.max_duration_secs == spec.lifecycle.max_duration_secs
    &&& req.idle_timeout_secs == spec.lifecycle.idle_timeout_secs
}

proof fn lemma_same_words(a: Option<Vec<String>>, b: Option<Vec<String>>)
    requires
        opt_texts_view(a) == opt_texts_view(b),
    ensures
        same_words(a, b),
{
    if a is Some && b is Some {
        let x = texts_view(a->0@);
        let y = texts_view(b->0@);
        assert(x.len() == y.len());
        assert forall|i: int| 0 <= i < a->0@.len() implies (#[trigger] a->0@[i])@
            == b->0@[i]@ by {
            assert(x[i] == y[i]);
        }
    }
}

/// The configuration of the sandbox that `req` asks for.
///
/// `name_check` is the runtime's verdict on the name; `level` is the level that the runtime reads
/// the requested log level as, if it is one. A level that the runtime does not know is dropped.
pub fn sandbox_config_from_cloud_request(
    req: &CloudCreateSandboxRequest,
    name_check: Result<(), BackendError>,
    level: Option<LogLevel>,
) -> (config: Result<SandboxConfig, ApiError>)
    ensures
        config is Ok <==> name_check is Ok,
        config matches Ok(config) ==> config@ == requested_config(req@, opt_level_view(level)),
        config matches Ok(config) ==> holds_request(config, *req),
        config matches Err(refusal) ==> refusal@ == backend_refusal(name_check->Err_0@),
{
    match name_check {
        Ok(_) => {},
        Err(error) => {
            return Err(ApiError::from(error));
        },
    }
    let log_level: Option<LogLevel> = match &req.log_level {
        Some(_) => level,
        None => None,
    };
    let spec = SandboxSpec {
        name: req.name.clone(),
        image: RootfsSource::Oci(
            OciRootfsSource { reference: req.image.clone(), upper_size_mib: None },
        ),
        resources: SandboxResources { cpus: req.vcpus, memory_mib: req.memory_mib },
        runtime: SandboxRuntimeOptions {
            workdir: copy_opt_text(&req.workdir),
            shell: copy_opt_text(&req.shell),
            scripts: req.scripts.clone(),
            entrypoint: copy_opt_texts(&req.entrypoint),
            hostname: copy_opt_text(&req.hostname),
            user: copy_opt_text(&req.user),
            log_level,
        },
        env: env_vars(&req.env),
        lifecycle: SandboxPolicy {
            ephemeral: req.ephemeral,
            max_duration_secs: req.max_duration_secs,
            idle_timeout_secs: req.idle_timeout_secs,
        },
    };
    let config = SandboxConfig { spec };
    proof {
        lemma_same_words(config.spec.runtime.entrypoint, req.entrypoint);
        assert forall|i: int| 0 <= i < config.spec.env@.len() implies (
        #[trigger] config.spec.env@[i]).key@ == req.env.entries()[i].0
            && config.spec.env@[i].value@ == req.env.entries()[i].1 by {
            assert(env_view(config.spec.env@)[i] == req.env.entries()[i]);
        }
    }
    Ok(config)
}

/// The refusal to show a sandbox that does not run an OCI image.
pub open spec fn unsupported_rootfs() -> ApiErrorView {
    ApiErrorView {
        status: HttpStatus::BadRequest,
        code: "unsupported_rootfs"@,
        message: "cloud adapter only exposes OCI-backed sandboxes through the cloud API"@,
    }
}

/// The request that `config` answers to, or the refusal to show it.
pub open spec fn described_request(config: ConfigView) -> Result<CreateRequestView, ApiErrorView> {
    match config.image {
        RootfsView::Oci { reference, .. } => Ok(
            CreateRequestView {
                name: config.name,
                image: reference,
                vcpus: config.cpus,
                memory_mib: config.memory_mib,
                env: collected(config.env),
                ephemeral: config.ephemeral,
                workdir: config.workdir,
                shell: config.shell,
                entrypoint: config.entrypoint,
                hostname: config.hostname,
                user: config.user,
                log_level: config.log_level,
                scripts: config.scripts,
                max_duration_secs: config.max_duration_secs,
                idle_timeout_secs: config.idle_timeout_secs,
            },
        ),
        RootfsView::Other => Err(unsupported_rootfs()),
    }
}

/// The view of a request or a refusal.
pub open spec fn request_result_view(
    result: Result<CloudCreateSandboxRequest, ApiError>,
) -> Result<CreateRequestView, ApiErrorView> {
    match result {
        Ok(req) => Ok(req@),
        Err(refusal) => Err(refusal@),
    }
}

/// The request that `config` answers to.
pub fn cloud_request_from_config(config: &SandboxConfig) -> (req: Result<
    CloudCreateSandboxRequest,
    ApiError,
>)
    ensures
        request_result_view(req) == described_request(config@),
        req is Ok <==> config.spec.image is Oci,
        req matches Ok(req) ==> shows_config(req, *config),
{
    let image = match &config.spec.image {
        RootfsSource::Oci(image) => image.reference.clone(),
        RootfsSource::Other => {
            return Err(
                ApiError {
                    status: HttpStatus::BadRequest,
                    code: "unsupported_rootfs",
                    message:
                        "cloud adapter only exposes OCI-backed sandboxes through the cloud API".to_string(),
                },
            );
        },
    };
    let log_level: Option<String> = match &config.spec.runtime.log_level {
        Some(level) => Some(level.name.clone()),
        None => None,
    };
    let req = CloudCreateSandboxRequest {
        name: config.spec.name.clone(),
        image,
        vcpus: config.spec.resources.cpus,
        memory_mib: config.spec.resources.memory_mib,
        env: collect_env(&config.spec.env),
        ephemeral: config.spec.lifecycle.ephemeral,
        workdir: copy_opt_text(&config.spec.runtime.workdir),
        shell: copy_opt_text(&config.spec.runtime.shell),
        entrypoint: copy_opt_texts(&config.spec.runtime.entrypoint),
        hostname: copy_opt_text(&config.spec.runtime.hostname),
        user: copy_opt_text(&config.spec.runtime.user),
        log_level,
        scripts: config.spec.runtime.scripts.clone(),
        max_duration_secs: config.spec.lifecycle.max_duration_secs,
        idle_timeout_secs: config.spec.lifecycle.idle_timeout_secs,
    };
    proof {
        lemma_same_words(req.entrypoint, config.spec.runtime.entrypoint);
        let vars = config.spec.env@;
        let pairs = env_view(vars);
        assert forall|i: int|
            0 <= i < vars.len() && (forall|j: int|
                i < j < vars.len() ==> (#[trigger] vars[j]).key@
                    != vars[i].key@) implies req.env.entries().contains(
            ((#[trigger] vars[i]).key@, vars[i].value@),
        ) by {
            assert forall|j: int| i < j < pairs.len() implies (#[trigger] pairs[j]).0
                != pairs[i].0 by {
                assert(vars[j].key@ != vars[i].key@);
            }
            law_last_value_counts(pairs, i);
        }
    }
    Ok(req)
}

/// The request that a looked-up sandbox answers to, or the refusal to show it.
pub open spec fn handle_request(handle: HandleView) -> Result<CreateRequestView, ApiErrorView> {
    match handle.config {
        Ok(config) => described_request(config),
        Err(error) => Err(backend_refusal(error)),
    }
}

/// The request that a looked-up sandbox answers to.
pub fn cloud_request_from_handle(handle: &SandboxHandle) -> (req: Result<
    CloudCreateSandboxRequest,
    ApiError,
>)
    ensures
        request_result_view(req) == handle_request(handle@),
{
    match &handle.config {
        Ok(config) => cloud_request_from_config(config),
        Err(error) => Err(
            ApiError::from(BackendError { kind: error.kind, message: error.message.clone() }),
        ),
    }
}

/// Field by field, the configuration holds what the request holds: the same image, the same
/// resources, the words of the entrypoint in the same order, each variable and each script with
/// its value, the same policy. The log level is the one that the runtime reads it as, and none
/// where none was asked for.
pub proof fn law_configuration_holds_the_request(
    req: CreateRequestView,
    level: Option<Seq<char>>,
    i: int,
)
    ensures
        ({
            let config = requested_config(req, level);
            &&& config.name == req.name
            &&& config.image matches RootfsView::Oci { reference, upper_size_mib }
                && reference == req.image && upper_size_mib is None
            &&& config.cpus == req.vcpus
            &&& config.memory_mib == req.memory_mib
            &&& config.workdir == req.workdir
            &&& config.shell == req.shell
            &&& config.hostname == req.hostname
            &&& config.user == req.user
            &&& config.entrypoint is Some <==> req.entrypoint is Some
            &&& req.entrypoint matches Some(words) ==> {
                &&& config.entrypoint->0.len() == words.len()
                &&& 0 <= i < words.len() ==> config.entrypoint->0[i] == words[i]
            }
            &&& config.env.len() == req.env.len()
            &&& 0 <= i < req.env.len() ==> config.env[i] == req.env[i]
            &&& config.scripts.len() == req.scripts.len()
            &&& 0 <= i < req.scripts.len() ==> config.scripts[i] == req.scripts[i]
            &&& config.ephemeral == req.ephemeral
            &&& config.max_duration_secs == req.max_duration_secs
            &&& config.idle_timeout_secs == req.idle_timeout_secs
            &&& req.log_level is Some ==> config.log_level == level
            &&& req.log_level is None ==> config.log_level is None
        }),
{
}

/// Field by field, the request that is shown for a configuration holds what the configuration
/// holds; and only a configuration that runs an OCI image is shown.
pub proof fn law_shown_request_holds_the_configuration(config: ConfigView, i: int)
    ensures
        described_request(config) is Ok <==> config.image is Oci,
        described_request(config) is Err ==> {
            let refusal = described_request(config)->Err_0;
            &&& refusal.status == HttpStatus::BadRequest
            &&& refusal.code == "unsupported_rootfs"@
        },
        described_request(config) matches Ok(req) ==> {
            &&& req.name == config.name
            &&& req.image == config.image->reference
            &&& req.vcpus == config.cpus
            &&& req.memory_mib == config.memory_mib
            &&& req.workdir == config.workdir
            &&& req.shell == config.shell
            &&& req.hostname == config.hostname
            &&& req.user == config.user
            &&& req.log_level == config.log_level
            &&& req.entrypoint is Some <==> config.entrypoint is Some
            &&& config.entrypoint matches Some(words) ==> {
                &&& req.entrypoint->0.len() == words.len()
                &&& 0 <= i < words.len() ==> req.entrypoint->0[i] == words[i]
            }
            &&& req.scripts.len() == config.scripts.len()
            &&& 0 <= i < config.scripts.len() ==> req.scripts[i] == config.scripts[i]
            &&& 0 <= i < config.env.len() && (forall|j: int|
                i < j < config.env.len() ==> (#[trigger] config.env[j]).0 != config.env[i].0)
                ==> req.env.contains(config.env[i])
            &&& 0 <= i < req.env.len() ==> config.env.contains(req.env[i])
            &&& req.ephemeral == config.ephemeral
            &&& req.max_duration_secs == config.max_duration_secs
            &&& req.idle_timeout_secs == config.idle_timeout_secs
        },
{
    if 0 <= i < config.env.len() && (forall|j: int|
        i < j < config.env.len() ==> (#[trigger] config.env[j]).0 != config.env[i].0) {
        law_last_value_counts(config.env, i);
    }
    if config.env.len() > 0 {
        let last = config.env.len() - 1;
        law_last_value_counts(config.env, last);
    }
}

/// A create request comes back from the configuration that it asks for: only the log level may
/// differ, which comes back under the name that the runtime reads it as.
pub proof fn law_request_survives_config(req: CreateRequestView, level: Option<Seq<char>>)
    requires
        keys_distinct(req.env),
    ensures
        described_request(requested_config(req, level)) == Ok::<CreateRequestView, ApiErrorView>(
            CreateRequestView {
                log_level: if req.log_level is Some {
                    level
                } else {
                    None
                },
                ..req
            },
        ),
        level == req.log_level ==> described_request(requested_config(req, level)) == Ok::<
            CreateRequestView,
            ApiErrorView,
        >(req),
{
    law_collected_of_distinct(req.env);
}

/// The configuration of a sandbox comes back from the request that it answers to, where it runs
/// an OCI image with no fixed writable layer and sets no environment variable twice.
pub proof fn law_config_survives_request(config: ConfigView)
    requires
        config.image matches RootfsView::Oci { upper_size_mib, .. } && upper_size_mib is None,
        keys_distinct(config.env),
    ensures
        described_request(config) is Ok,
        requested_config(described_request(config)->Ok_0, config.log_level) == config,
{
    law_collected_of_distinct(config.env);
}

// -------------------------------------------------------------------------------------------
// Sandboxes
// -------------------------------------------------------------------------------------------

/// The organisation that everything on this host belongs to.
pub open spec fn org_id() -> Seq<char> {
    "local"@
}

/// The cloud status of a local status.
pub open spec fn cloud_status(status: SandboxStatus) -> CloudSandboxStatus {
    match status {
        SandboxStatus::Created => CloudSandboxStatus::Created,
        SandboxStatus::Starting => CloudSandboxStatus::Starting,
        SandboxStatus::Running => CloudSandboxStatus::Running,
        SandboxStatus::Draining => CloudSandboxStatus::Stopping,
        SandboxStatus::Paused => CloudSandboxStatus::Running,
        SandboxStatus::Stopped => CloudSandboxStatus::Stopped,
        SandboxStatus::Crashed => CloudSandboxStatus::Failed,
    }
}

/// The cloud status of a local status.
pub fn cloud_status_from_local(status: SandboxStatus) -> (r: CloudSandboxStatus)
    ensures
        r == cloud_status(status),
{
    match status {
        SandboxStatus::Created => CloudSandboxStatus::Created,
        SandboxStatus::Starting => CloudSandboxStatus::Starting,
        SandboxStatus::Running => CloudSandboxStatus::Running,
        SandboxStatus::Draining => CloudSandboxStatus::Stopping,
        SandboxStatus::Paused => CloudSandboxStatus::Running,
        SandboxStatus::Stopped => CloudSandboxStatus::Stopped,
        SandboxStatus::Crashed => CloudSandboxStatus::Failed,
    }
}

/// Whether a sandbox of this status can be connected to.
pub open spec fn is_live(status: SandboxStatus) -> bool {
    status == SandboxStatus::Running || status == SandboxStatus::Draining
}

/// Whether a sandbox of this status has ended.
pub open spec fn has_ended(status: SandboxStatus) -> bool {
    status == SandboxStatus::Stopped || status == SandboxStatus::Crashed
}

/// When a sandbox was started: known only while it is live, and then by its last change, or else
/// by its creation.
pub open spec fn start_time(handle: HandleView) -> Option<Timestamp> {
    if is_live(handle.status) {
        if handle.updated_at is Some {
            handle.updated_at
        } else {
            handle.created_at
        }
    } else {
        None
    }
}

/// When a sandbox was stopped: known only once it has ended, and then by its last change.
pub open spec fn stop_time(handle: HandleView) -> Option<Timestamp> {
    if has_ended(handle.status) {
        handle.updated_at
    } else {
        None
    }
}

/// When a sandbox was started.
pub fn running_started_at(handle: &SandboxHandle) -> (at: Option<Timestamp>)
    ensures
        at == start_time(handle@),
{
    match handle.status {
        SandboxStatus::Running | SandboxStatus::Draining => match handle.updated_at {
            Some(at) => Some(at),
            None => handle.created_at,
        },
        _ => None,
    }
}

/// When a sandbox was stopped.
pub fn stopped_at(handle: &SandboxHandle) -> (at: Option<Timestamp>)
    ensures
        at == stop_time(handle@),
{
    match handle.status {
        SandboxStatus::Stopped | SandboxStatus::Crashed => handle.updated_at,
        _ => None,
    }
}

/// The answer for a looked-up sandbox that was created by `req`, at the instant `now`, which
/// stands in for an unknown creation time.
pub open spec fn sandbox_answer(
    handle: HandleView,
    req: CreateRequestView,
    now: Timestamp,
) -> SandboxView {
    SandboxView {
        id: handle.name,
        org_id: org_id(),
        name: handle.name,
        status: cloud_status(handle.status),
        config: req,
        ephemeral: match handle.config {
            Ok(config) => config.ephemeral,
            Err(_) => true,
        },
        created_at: match handle.created_at {
            Some(at) => at,
            None => now,
        },
        started_at: start_time(handle),
        stopped_at: stop_time(handle),
        last_error: handle.last_error,
    }
}

/// The answer for a looked-up sandbox that is gone since: of status `status`, stopped at the
/// instant `end`.
pub open spec fn terminal_answer(
    handle: HandleView,
    req: CreateRequestView,
    status: CloudSandboxStatus,
    now: Timestamp,
    end: Timestamp,
) -> SandboxView {
    SandboxView { status, stopped_at: Some(end), ..sandbox_answer(handle, req, now) }
}

/// The answer for a looked-up sandbox, at the instant `now`.
pub fn cloud_sandbox_at(
    handle: &SandboxHandle,
    req: CloudCreateSandboxRequest,
    now: Timestamp,
) -> (sandbox: CloudSandbox)
    ensures
        sandbox@ == sandbox_answer(handle@, req@, now),
        sandbox.id@ == handle.name@,
        sandbox.name@ == handle.name@,
        sandbox.config == req,
        sandbox.status == CloudSandboxStatus::Created <==> handle.status == SandboxStatus::Created,
        sandbox.status == CloudSandboxStatus::Starting <==> handle.status
            == SandboxStatus::Starting,
        sandbox.status == CloudSandboxStatus::Running <==> handle.status == SandboxStatus::Running
            || handle.status == SandboxStatus::Paused,
        sandbox.status == CloudSandboxStatus::Stopping <==> handle.status
            == SandboxStatus::Draining,
        sandbox.status == CloudSandboxStatus::Stopped <==> handle.status == SandboxStatus::Stopped,
        sandbox.status == CloudSandboxStatus::Failed <==> handle.status == SandboxStatus::Crashed,
        handle.created_at matches Some(at) ==> sandbox.created_at == at,
        handle.config matches Ok(config) ==> sandbox.ephemeral == config.spec.lifecycle.ephemeral,
{
    CloudSandbox {
        id: handle.name.clone(),
        org_id: "local".to_string(),
        name: handle.name.clone(),
        status: cloud_status_from_local(handle.status),
        config: req,
        ephemeral: match &handle.config {
            Ok(config) => config.spec.lifecycle.ephemeral,
            Err(_) => true,
        },
        created_at: match handle.created_at {
            Some(at) => at,
            None => now,
        },
        started_at: running_started_at(handle),
        stopped_at: stopped_at(handle),
        last_error: copy_opt_text(&handle.last_error),
    }
}

/// Whether `sandbox` is the answer for `handle` and `req` at some instant.
pub open spec fn answers_for(
    sandbox: SandboxView,
    handle: HandleView,
    req: CreateRequestView,
) -> bool {
    exists|now: Timestamp|
        is_instant(now) && sandbox == #[trigger] sandbox_answer(handle, req, now)
}

/// Whether `sandbox` is the answer for `handle` and `req` once the sandbox is gone, at some
/// instants.
pub open spec fn answers_terminal_for(
    sandbox: SandboxView,
    handle: HandleView,
    req: CreateRequestView,
    status: CloudSandboxStatus,
) -> bool {
    exists|now: Timestamp, end: Timestamp|
        is_instant(now) && is_instant(end) && sandbox == #[trigger] terminal_answer(
            handle,
            req,
            status,
            now,
            end,
        )
}

/// When a sandbox was created, with the present instant for a creation time that is unknown. The
/// clock is read for no other.
fn creation_time(handle: &SandboxHandle) -> (at: Timestamp)
    ensures
        handle.created_at matches Some(known) ==> at == known,
        handle.created_at is None ==> is_instant(at),
{
    match handle.created_at {
        Some(at) => at,
        None => now(),
    }
}

/// An instant that answers for `handle` as `at` does: any, where the creation time is known.
spec fn some_instant(handle: HandleView, at: Timestamp) -> Timestamp {
    if handle.created_at is Some {
        Timestamp { secs: 0, nanos: 0 }
    } else {
        at
    }
}

/// The answer for a looked-up sandbox. The clock is read only where the creation time is unknown.
pub fn cloud_sandbox_from_handle(handle: &SandboxHandle, req: CloudCreateSandboxRequest) -> (
sandbox: CloudSandbox)
    ensures
        answers_for(sandbox@, handle@, req@),
        handle.created_at matches Some(at) ==> sandbox@ == sandbox_answer(handle@, req@, at),
{
    let at = creation_time(handle);
    let sandbox = cloud_sandbox_at(handle, req, at);
    assert(sandbox@ == sandbox_answer(handle@, req@, some_instant(handle@, at)));
    sandbox
}

/// The answer for a looked-up sandbox that is gone since, at the instants `now` and `end`.
pub fn cloud_sandbox_terminal_at(
    handle: &SandboxHandle,
    req: CloudCreateSandboxRequest,
    status: CloudSandboxStatus,
    now: Timestamp,
    end: Timestamp,
) -> (sandbox: CloudSandbox)
    ensures
        sandbox@ == terminal_answer(handle@, req@, status, now, end),
{
    let mut sandbox = cloud_sandbox_at(handle, req, now);
    sandbox.status = status;
    sandbox.stopped_at = Some(end);
    sandbox
}

/// The answer for a looked-up sandbox that is gone since: stopped at the present instant.
pub fn cloud_sandbox_terminal_from_handle(
    handle: &SandboxHandle,
    req: CloudCreateSandboxRequest,
    status: CloudSandboxStatus,
) -> (sandbox: CloudSandbox)
    ensures
        answers_terminal_for(sandbox@, handle@, req@, status),
{
    let at = creation_time(handle);
    let end = now();
    let sandbox = cloud_sandbox_terminal_at(handle, req, status, at, end);
    assert(sandbox@ == terminal_answer(
        handle@,
        req@,
        status,
        some_instant(handle@, at),
        end,
    ));
    sandbox
}

/// The name of the sandbox that a cloud identifier addresses.
pub fn sandbox_name_from_cloud_id(id: &str) -> (name: String)
    ensures
        name@ == id@,
{
    id.to_string()
}

/// The identifier in an answer addresses the sandbox that the answer is about, and every answer
/// is about a sandbox of the local organisation.
pub proof fn law_answered_id_addresses_the_sandbox(
    sandbox: SandboxView,
    handle: HandleView,
    req: CreateRequestView,
)
    requires
        answers_for(sandbox, handle, req),
    ensures
        sandbox.id == handle.name,
        sandbox.name == handle.name,
        sandbox.org_id == org_id(),
        sandbox.config == req,
{
}

/// What the answer for a looked-up sandbox tells of it: the status that its local status stands
/// for, as a paused sandbox counts as running; a start time exactly while it runs or drains, its
/// last change or else its creation; a stop time exactly once it has ended, its last change; and
/// its creation, its failure and whether it is ephemeral, as the runtime has them.
pub proof fn law_answer_tells_of_the_sandbox(
    sandbox: SandboxView,
    handle: HandleView,
    req: CreateRequestView,
)
    requires
        answers_for(sandbox, handle, req),
    ensures
        sandbox.org_id == "local"@,
        sandbox.status == CloudSandboxStatus::Created <==> handle.status == SandboxStatus::Created,
        sandbox.status == CloudSandboxStatus::Starting <==> handle.status
            == SandboxStatus::Starting,
        sandbox.status == CloudSandboxStatus::Running <==> handle.status == SandboxStatus::Running
            || handle.status == SandboxStatus::Paused,
        sandbox.status == CloudSandboxStatus::Stopping <==> handle.status
            == SandboxStatus::Draining,
        sandbox.status == CloudSandboxStatus::Stopped <==> handle.status == SandboxStatus::Stopped,
        sandbox.status == CloudSandboxStatus::Failed <==> handle.status == SandboxStatus::Crashed,
        handle.created_at matches Some(at) ==> sandbox.created_at == at,
        handle.status == SandboxStatus::Running || handle.status == SandboxStatus::Draining ==> {
            &&& handle.updated_at is Some ==> sandbox.started_at == handle.updated_at
            &&& handle.updated_at is None ==> sandbox.started_at == handle.created_at
        },
        handle.status == SandboxStatus::Stopped || handle.status == SandboxStatus::Crashed
            ==> sandbox.stopped_at == handle.updated_at,
        sandbox.started_at is Some ==> handle.status == SandboxStatus::Running || handle.status
            == SandboxStatus::Draining,
        sandbox.stopped_at is Some ==> handle.status == SandboxStatus::Stopped || handle.status
            == SandboxStatus::Crashed,
        sandbox.last_error == handle.last_error,
        handle.config matches Ok(config) ==> sandbox.ephemeral == config.ephemeral,
        handle.config is Err ==> sandbox.ephemeral,
{
}

/// The answer for a sandbox that is gone since tells the given status and a stop time, and for the
/// rest what the lookup had found.
pub proof fn law_answer_tells_of_a_gone_sandbox(
    sandbox: SandboxView,
    handle: HandleView,
    req: CreateRequestView,
    status: CloudSandboxStatus,
)
    requires
        answers_terminal_for(sandbox, handle, req, status),
    ensures
        sandbox.id == handle.name,
        sandbox.name == handle.name,
        sandbox.org_id == "local"@,
        sandbox.config == req,
        sandbox.status == status,
        sandbox.stopped_at is Some,
        handle.created_at matches Some(at) ==> sandbox.created_at == at,
        handle.status == SandboxStatus::Running || handle.status == SandboxStatus::Draining ==> {
            &&& handle.updated_at is Some ==> sandbox.started_at == handle.updated_at
            &&& handle.updated_at is None ==> sandbox.started_at == handle.created_at
        },
        sandbox.started_at is Some ==> handle.status == SandboxStatus::Running || handle.status
            == SandboxStatus::Draining,
        sandbox.last_error == handle.last_error,
        handle.config matches Ok(config) ==> sandbox.ephemeral == config.ephemeral,
        handle.config is Err ==> sandbox.ephemeral,
{
}

/// A start time is told only of a sandbox that is running or stopping, a stop time only of one
/// that is stopped or failed; so no answer for a looked-up sandbox tells both.
pub proof fn law_times_fit_the_status(
    sandbox: SandboxView,
    handle: HandleView,
    req: CreateRequestView,
)
    requires
        answers_for(sandbox, handle, req),
    ensures
        sandbox.started_at is Some ==> sandbox.status == CloudSandboxStatus::Running
            || sandbox.status == CloudSandboxStatus::Stopping,
        sandbox.stopped_at is Some ==> sandbox.status == CloudSandboxStatus::Stopped
            || sandbox.status == CloudSandboxStatus::Failed,
        sandbox.started_at is None || sandbox.stopped_at is None,
{
}

// -------------------------------------------------------------------------------------------
// Volumes
// -------------------------------------------------------------------------------------------

/// The answer for a looked-up volume.
pub open spec fn volume_answer(handle: VolumeHandleView) -> VolumeView {
    VolumeView {
        id: handle.name,
        org_id: org_id(),
        name: handle.name,
        kind: handle.kind,
        quota_mib: handle.quota_mib,
        used_bytes: handle.used_bytes,
        capacity_bytes: handle.capacity_bytes,
        disk_format: handle.disk_format,
        disk_fstype: handle.disk_fstype,
        labels: handle.labels,
        created_at: handle.created_at,
    }
}

/// What the answer for a volume tells of it is what the runtime has, field by field, and every
/// volume belongs to the local organisation.
pub proof fn law_answer_tells_of_the_volume(handle: VolumeHandleView, i: int)
    ensures
        ({
            let volume = volume_answer(handle);
            &&& volume.id == handle.name
            &&& volume.name == handle.name
            &&& volume.org_id == "local"@
            &&& volume.kind == handle.kind
            &&& volume.quota_mib == handle.quota_mib
            &&& volume.used_bytes == handle.used_bytes
            &&& volume.capacity_bytes == handle.capacity_bytes
            &&& volume.disk_format == handle.disk_format
            &&& volume.disk_fstype == handle.disk_fstype
            &&& volume.created_at == handle.created_at
            &&& volume.labels.len() == handle.labels.len()
            &&& 0 <= i < handle.labels.len() ==> volume.labels[i] == handle.labels[i]
        }),
{
}

/// A copy of pairs of strings.
fn copy_pairs(pairs: &Vec<(String, String)>) -> (copy: Vec<(String, String)>)
    ensures
        entries_view(copy@) == entries_view(pairs@),
{
    let mut copy: Vec<(String, String)> = Vec::new();
    let mut i: usize = 0;
    while i < pairs.len()
        invariant
            copy.len() == i <= pairs.len(),
            forall|j: int|
                0 <= j < i ==> (#[trigger] copy@[j]).0@ == pairs@[j].0@ && copy@[j].1@
                    == pairs@[j].1@,
        decreases pairs.len() - i,
    {
        let pair = &pairs[i];
        copy.push((pair.0.clone(), pair.1.clone()));
        i = i + 1;
    }
    assert(entries_view(copy@) =~= entries_view(pairs@));
    copy
}

/// The answer for a looked-up volume.
pub fn cloud_volume_from_handle(handle: &VolumeHandle) -> (volume: CloudVolume)
    ensures
        volume@ == volume_answer(handle@),
        volume.id@ == handle.name@,
        volume.name@ == handle.name@,
        volume.kind.name@ == handle.kind.name@,
        volume.quota_mib == handle.quota_mib,
        volume.used_bytes == handle.used_bytes,
        volume.capacity_bytes == handle.capacity_bytes,
        volume.created_at == handle.created_at,
{
    CloudVolume {
        id: handle.name.clone(),
        org_id: "local".to_string(),
        name: handle.name.clone(),
        kind: VolumeKind { name: handle.kind.name.clone() },
        quota_mib: handle.quota_mib,
        used_bytes: handle.used_bytes,
        capacity_bytes: handle.capacity_bytes,
        disk_format: copy_opt_text(&handle.disk_format),
        disk_fstype: copy_opt_text(&handle.disk_fstype),
        labels: copy_pairs(&handle.labels),
        created_at: handle.created_at,
    }
}

// -------------------------------------------------------------------------------------------
// Metrics and files
// -------------------------------------------------------------------------------------------

/// The whole milliseconds of an uptime, as far as 64 bits reach.
pub open spec fn uptime_millis(secs: u64, subsec_nanos: u32) -> int {
    let millis = secs * 1000 + subsec_nanos as int / 1_000_000;
    if millis <= u64::MAX {
        millis
    } else {
        u64::MAX as int
    }
}

/// The milliseconds of an uptime are the whole ones: as many as fit into its nanoseconds, one more
/// does not; and where 64 bits do not reach, the most that they hold.
pub proof fn law_uptime_is_in_whole_milliseconds(secs: u64, subsec_nanos: u32)
    ensures
        ({
            let nanos = secs * 1_000_000_000 + subsec_nanos;
            let millis = uptime_millis(secs, subsec_nanos);
            &&& 0 <= millis <= u64::MAX
            &&& millis * 1_000_000 <= nanos
            &&& millis < u64::MAX ==> nanos < (millis + 1) * 1_000_000
        }),
{
}

/// The answer for a sample of the resource use of a sandbox.
pub fn cloud_metrics_from_sdk(metrics: SandboxMetrics) -> (r: CloudSandboxMetrics)
    ensures
        r.cpu_percent_bits == metrics.cpu_percent_bits,
        r.vcpu_time_ns == metrics.vcpu_time_ns,
        r.memory_bytes == metrics.memory_bytes,
        r.memory_available_bytes == metrics.memory_available_bytes,
        r.memory_host_resident_bytes == metrics.memory_host_resident_bytes,
        r.memory_limit_bytes == metrics.memory_limit_bytes,
        r.disk_read_bytes == metrics.disk_read_bytes,
        r.disk_write_bytes == metrics.disk_write_bytes,
        r.net_rx_bytes == metrics.net_rx_bytes,
        r.net_tx_bytes == metrics.net_tx_bytes,
        r.upper_used_bytes == metrics.upper_used_bytes,
        r.upper_free_bytes == metrics.upper_free_bytes,
        r.upper_host_allocated_bytes == metrics.upper_host_allocated_bytes,
        r.uptime_ms == uptime_millis(metrics.uptime_secs, metrics.uptime_subsec_nanos),
        r.timestamp == metrics.timestamp,
{
    let millis: u128 = metrics.uptime_secs as u128 * 1000 + metrics.uptime_subsec_nanos as u128
        / 1_000_000;
    let uptime_ms: u64 = if millis <= u64::MAX as u128 {
        millis as u64
    } else {
        u64::MAX
    };
    CloudSandboxMetrics {
        cpu_percent_bits: metrics.cpu_percent_bits,
        vcpu_time_ns: metrics.vcpu_time_ns,
        memory_bytes: metrics.memory_bytes,
        memory_available_bytes: metrics.memory_available_bytes,
        memory_host_resident_bytes: metrics.memory_host_resident_bytes,
        memory_limit_bytes: metrics.memory_limit_bytes,
        disk_read_bytes: metrics.disk_read_bytes,
        disk_write_bytes: metrics.disk_write_bytes,
        net_rx_bytes: metrics.net_rx_bytes,
        net_tx_bytes: metrics.net_tx_bytes,
        upper_used_bytes: metrics.upper_used_bytes,
        upper_free_bytes: metrics.upper_free_bytes,
        upper_host_allocated_bytes: metrics.upper_host_allocated_bytes,
        uptime_ms,
        timestamp: metrics.timestamp,
    }
}

/// The cloud kind of a filesystem entry.
pub open spec fn cloud_fs_kind(kind: FsEntryKind) -> CloudFsEntryKind {
    match kind {
        FsEntryKind::File => CloudFsEntryKind::File,
        FsEntryKind::Directory => CloudFsEntryKind::Directory,
        FsEntryKind::Symlink => CloudFsEntryKind::Symlink,
        FsEntryKind::Other => CloudFsEntryKind::Other,
    }
}

/// The cloud kind of a filesystem entry.
pub fn cloud_fs_kind_from_sdk(kind: FsEntryKind) -> (r: CloudFsEntryKind)
    ensures
        r == cloud_fs_kind(kind),
{
    match kind {
        FsEntryKind::File => CloudFsEntryKind::File,
        FsEntryKind::Directory => CloudFsEntryKind::Directory,
        FsEntryKind::Symlink => CloudFsEntryKind::Symlink,
        FsEntryKind::Other => CloudFsEntryKind::Other,
    }
}

/// What the answers for an entry and for the metadata of a path tell is what the runtime has, field
/// by field; each kind is told as itself.
pub proof fn law_answers_tell_of_the_file(entry: FsEntry, metadata: FsMetadata)
    ensures
        ({
            let told = fs_entry_answer(entry);
            &&& told.path == entry.path
            &&& told.size == entry.size
            &&& told.mode == entry.mode
            &&& told.modified == entry.modified
            &&& told.kind == CloudFsEntryKind::File <==> entry.kind == FsEntryKind::File
            &&& told.kind == CloudFsEntryKind::Directory <==> entry.kind == FsEntryKind::Directory
            &&& told.kind == CloudFsEntryKind::Symlink <==> entry.kind == FsEntryKind::Symlink
            &&& told.kind == CloudFsEntryKind::Other <==> entry.kind == FsEntryKind::Other
        }),
        ({
            let told = fs_metadata_answer(metadata);
            &&& told.size == metadata.size
            &&& told.mode == metadata.mode
            &&& told.readonly == metadata.readonly
            &&& told.modified == metadata.modified
            &&& told.created == metadata.created
            &&& told.kind == CloudFsEntryKind::File <==> metadata.kind == FsEntryKind::File
            &&& told.kind == CloudFsEntryKind::Directory <==> metadata.kind
                == FsEntryKind::Directory
            &&& told.kind == CloudFsEntryKind::Symlink <==> metadata.kind == FsEntryKind::Symlink
            &&& told.kind == CloudFsEntryKind::Other <==> metadata.kind == FsEntryKind::Other
        }),
{
}

/// The answer for an entry of a directory.
pub open spec fn fs_entry_answer(entry: FsEntry) -> CloudFsEntry {
    CloudFsEntry {
        path: entry.path,
        kind: cloud_fs_kind(entry.kind),
        size: entry.size,
        mode: entry.mode,
        modified: entry.modified,
    }
}

/// The answer for an entry of a directory.
pub fn cloud_fs_entry_from_sdk(entry: FsEntry) -> (r: CloudFsEntry)
    ensures
        r == fs_entry_answer(entry),
{
    CloudFsEntry {
        path: entry.path,
        kind: cloud_fs_kind_from_sdk(entry.kind),
        size: entry.size,
        mode: entry.mode,
        modified: entry.modified,
    }
}

/// The answer for the metadata of a path.
pub open spec fn fs_metadata_answer(metadata: FsMetadata) -> CloudFsMetadata {
    CloudFsMetadata {
        kind: cloud_fs_kind(metadata.kind),
        size: metadata.size,
        mode: metadata.mode,
        readonly: metadata.readonly,
        modified: metadata.modified,
        created: metadata.created,
    }
}

/// The answer for the metadata of a path.
pub fn cloud_fs_metadata_from_sdk(metadata: FsMetadata) -> (r: CloudFsMetadata)
    ensures
        r == fs_metadata_answer(metadata),
{
    CloudFsMetadata {
        kind: cloud_fs_kind_from_sdk(metadata.kind),
        size: metadata.size,
        mode: metadata.mode,
        readonly: metadata.readonly,
        modified: metadata.modified,
        created: metadata.created,
    }
}

} // verus!
