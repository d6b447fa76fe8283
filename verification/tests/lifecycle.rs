use msb_cloud_adapter::backend::{
    FsEntry, FsEntryKind, FsMetadata, OciRootfsSource, RootfsSource, SandboxConfig, SandboxHandle,
    SandboxPolicy, SandboxResources, SandboxRuntimeOptions, SandboxSpec, SandboxStatus,
};
use msb_cloud_adapter::cloud::{
    CloudCreateSandboxRequest, CloudFsEntryKind, CloudSandbox, CloudSandboxStatus,
};
use msb_cloud_adapter::error::{ApiError, BackendError, BackendErrorKind};
use msb_cloud_adapter::files::{
    fs_exists_response, fs_list_response, fs_mutation_response, fs_stat_response, removal_of,
    remove_volume_by_name, FsMutation, Removal,
};
use msb_cloud_adapter::lifecycle::{
    after_operation, begin_operation, cloud_sandbox_from_live, create_sandbox, get_sandbox_by_name,
    lifecycle_response_after_operation, live_sandbox_by_id, not_live_refusal, not_running,
    operation_response, remove_sandbox_by_name, started_request, AfterOperation, CreateQuery,
};
use msb_cloud_adapter::string_map::StringMap;
use msb_cloud_adapter::time::Timestamp;

fn config(name: &str, ephemeral: bool) -> SandboxConfig {
    SandboxConfig {
        spec: SandboxSpec {
            name: name.to_string(),
            image: RootfsSource::Oci(OciRootfsSource {
                reference: "alpine".to_string(),
                upper_size_mib: None,
            }),
            resources: SandboxResources { cpus: 1, memory_mib: 512 },
            runtime: SandboxRuntimeOptions {
                workdir: None,
                shell: None,
                scripts: StringMap::new(),
                entrypoint: None,
                hostname: None,
                user: None,
                log_level: None,
            },
            env: Vec::new(),
            lifecycle: SandboxPolicy {
                ephemeral,
                max_duration_secs: None,
                idle_timeout_secs: None,
            },
        },
    }
}

fn handle(ephemeral: bool, status: SandboxStatus) -> SandboxHandle {
    SandboxHandle {
        name: "box".to_string(),
        status,
        config: Ok(config("box", ephemeral)),
        created_at: Some(Timestamp { secs: 1, nanos: 0 }),
        updated_at: Some(Timestamp { secs: 2, nanos: 0 }),
        last_error: None,
    }
}

fn failure(kind: BackendErrorKind) -> BackendError {
    BackendError { kind, message: "told so".to_string() }
}

fn operate(
    ephemeral: bool,
    operated: Result<(), BackendError>,
    refreshed: Result<SandboxHandle, BackendError>,
) -> Result<CloudSandbox, ApiError> {
    let pending = begin_operation(Ok(handle(ephemeral, SandboxStatus::Running)))?;
    match after_operation(pending, operated) {
        AfterOperation::LookUp(pending) => {
            operation_response(pending, refreshed)
        }
        AfterOperation::Answer(answer) => answer,
    }
}

#[test]
fn operated_sandbox_is_shown_as_found_again() {
    for ephemeral in [false, true] {
        let again = Ok(handle(ephemeral, SandboxStatus::Draining));
        let shown = operate(ephemeral, Ok(()), again).unwrap();
        assert_eq!(shown.status, CloudSandboxStatus::Stopping);
        assert_eq!(shown.ephemeral, ephemeral);
    }
}

#[test]
fn ephemeral_sandbox_may_be_gone() {
    let missing = || failure(BackendErrorKind::SandboxNotFound);
    let during = operate(true, Err(missing()), Ok(handle(true, SandboxStatus::Running))).unwrap();
    assert_eq!(during.status, CloudSandboxStatus::Stopped);
    assert!(during.stopped_at.is_some());
    let after = operate(true, Ok(()), Err(missing())).unwrap();
    assert_eq!(after.status, CloudSandboxStatus::Stopped);
    assert!(after.stopped_at.is_some());
    assert_eq!(after.name, "box");
}

#[test]
fn lasting_sandbox_is_missed() {
    let missing = || failure(BackendErrorKind::SandboxNotFound);
    let again = Ok(handle(false, SandboxStatus::Running));
    let during = operate(false, Err(missing()), again).unwrap_err();
    assert_eq!(during.code, "sandbox_not_found");
    let after = operate(false, Ok(()), Err(missing())).unwrap_err();
    assert_eq!(after.code, "sandbox_not_found");
}

#[test]
fn other_failures_of_an_operation_are_answered() {
    for ephemeral in [false, true] {
        let again = Ok(handle(ephemeral, SandboxStatus::Running));
        let refusal = operate(ephemeral, Err(failure(BackendErrorKind::ExecTimeout)), again);
        assert_eq!(refusal.unwrap_err().code, "exec_timeout");
        let refusal = operate(ephemeral, Ok(()), Err(failure(BackendErrorKind::Other)));
        assert_eq!(refusal.unwrap_err().message, "told so");
    }
}

#[test]
fn operation_on_a_missing_sandbox_is_refused() {
    let refusal = begin_operation(Err(failure(BackendErrorKind::SandboxNotFound))).unwrap_err();
    assert_eq!(refusal.code, "sandbox_not_found");
    let mut other = handle(true, SandboxStatus::Running);
    other.config.as_mut().unwrap().spec.image = RootfsSource::Other;
    assert_eq!(begin_operation(Ok(other)).unwrap_err().code, "unsupported_rootfs");
}

#[test]
fn sandbox_is_shown_by_name() {
    let shown = get_sandbox_by_name(Ok(handle(false, SandboxStatus::Crashed))).unwrap();
    assert_eq!(shown.status, CloudSandboxStatus::Failed);
    assert_eq!(shown.config.image, "alpine");
    let refusal = get_sandbox_by_name(Err(failure(BackendErrorKind::SandboxNotFound)));
    assert_eq!(refusal.unwrap_err().code, "sandbox_not_found");
}

#[test]
fn started_sandbox_is_shown_with_its_request() {
    let req = started_request(Ok(config("box", false))).unwrap();
    let shown = cloud_sandbox_from_live(Ok(handle(false, SandboxStatus::Running)), &req).unwrap();
    assert_eq!(shown.status, CloudSandboxStatus::Running);
    assert_eq!(shown.config.name, "box");
    let gone = cloud_sandbox_from_live(Err(failure(BackendErrorKind::SandboxNotFound)), &req);
    assert_eq!(gone.unwrap_err().code, "sandbox_not_found");
    let refused = started_request(Err(failure(BackendErrorKind::SandboxStillRunning)));
    assert_eq!(refused.unwrap_err().code, "sandbox_still_running");
}

#[test]
fn creation_does_not_depend_on_the_start_flag() {
    let req = CloudCreateSandboxRequest {
        name: "box".to_string(),
        image: "alpine".to_string(),
        log_level: Some("no such level".to_string()),
        ..Default::default()
    };
    let started = create_sandbox(&req, &CreateQuery { start: true }, Ok(()), None).unwrap();
    let held = create_sandbox(&req, &CreateQuery { start: false }, Ok(()), None).unwrap();
    assert!(!started.starts_unasked);
    assert!(held.starts_unasked);
    assert_eq!(format!("{:?}", started.config), format!("{:?}", held.config));
    assert_eq!(started.config.spec.name, "box");
    assert!(started.config.spec.runtime.log_level.is_none());

    let shown = cloud_sandbox_from_live(Ok(handle(true, SandboxStatus::Running)), &req).unwrap();
    assert_eq!(shown.name, "box");
    assert_eq!(shown.config.log_level.as_deref(), Some("no such level"));

    for start in [false, true] {
        let refused = Err(failure(BackendErrorKind::InvalidConfig));
        let refusal = create_sandbox(&req, &CreateQuery { start }, refused, None).unwrap_err();
        assert_eq!(refusal.code, "invalid_config");
        assert_eq!(refusal.message, "told so");
    }
}

#[test]
fn removal_may_be_repeated() {
    let first = remove_sandbox_by_name("box", Ok(())).unwrap();
    assert_eq!(first.message, "sandbox box removed");
    let again = remove_sandbox_by_name("box", Err(failure(BackendErrorKind::SandboxNotFound)));
    assert_eq!(again.unwrap().message, "sandbox box already removed");
    let running = remove_sandbox_by_name("box", Err(failure(BackendErrorKind::SandboxStillRunning)));
    assert_eq!(running.unwrap_err().code, "sandbox_still_running");
}

#[test]
fn volume_removal_may_not_be_repeated() {
    assert_eq!(remove_volume_by_name("data", Ok(())).unwrap().message, "volume data removed");
    let again = remove_volume_by_name("data", Err(failure(BackendErrorKind::VolumeNotFound)));
    assert_eq!(again.unwrap_err().code, "volume_not_found");
}

#[test]
fn file_endpoints_need_a_live_sandbox() {
    assert_eq!(live_sandbox_by_id("box", SandboxStatus::Running), Ok(()));
    assert_eq!(live_sandbox_by_id("box", SandboxStatus::Draining), Ok(()));
    for (status, label) in [
        (SandboxStatus::Created, "Created"),
        (SandboxStatus::Starting, "Starting"),
        (SandboxStatus::Paused, "Paused"),
        (SandboxStatus::Stopped, "Stopped"),
        (SandboxStatus::Crashed, "Crashed"),
    ] {
        assert_eq!(
            live_sandbox_by_id("a\"b", status),
            Err(format!("sandbox \"a\\\"b\" is not running (status: {label})")),
        );
        assert_eq!(
            not_running("'box'", status),
            format!("sandbox 'box' is not running (status: {status:?})"),
        );
    }
}

#[test]
fn sandbox_that_is_not_live_is_an_internal_error() {
    let refusal = not_live_refusal("not running".to_string());
    assert_eq!(refusal.status.as_u16(), 500);
    assert_eq!(refusal.code, "internal");
    assert_eq!(refusal.message, "not running");
}

#[test]
fn missed_sandbox_is_shown_with_the_given_status() {
    let pending = begin_operation(Ok(handle(true, SandboxStatus::Running))).unwrap();
    let missing = Err(failure(BackendErrorKind::SandboxNotFound));
    let shown =
        lifecycle_response_after_operation(pending, missing, CloudSandboxStatus::Failed).unwrap();
    assert_eq!(shown.status, CloudSandboxStatus::Failed);
}

#[test]
fn file_changes_are_confirmed() {
    for (mutation, message) in [
        (FsMutation::Write, "file written"),
        (FsMutation::Mkdir, "directory created"),
        (FsMutation::Remove, "path removed"),
        (FsMutation::Copy, "path copied"),
        (FsMutation::Rename, "path renamed"),
    ] {
        assert_eq!(fs_mutation_response(mutation, Ok(())).unwrap().message, message);
        let refusal = fs_mutation_response(mutation, Err(failure(BackendErrorKind::Unsupported)));
        assert_eq!(refusal.unwrap_err().code, "unsupported");
    }
    assert!(matches!(removal_of(true), Removal::Directory));
    assert!(matches!(removal_of(false), Removal::Path));
}

#[test]
fn directory_is_listed_in_order() {
    let entry = |path: &str, kind| FsEntry {
        path: path.to_string(),
        kind,
        size: 1,
        mode: 2,
        modified: None,
    };
    let listed = vec![entry("/b", FsEntryKind::Directory), entry("/a", FsEntryKind::File)];
    let shown = fs_list_response(Ok(listed)).unwrap();
    assert_eq!(shown.len(), 2);
    assert_eq!(shown[0].path, "/b");
    assert_eq!(shown[0].kind, CloudFsEntryKind::Directory);
    assert_eq!(shown[1].path, "/a");
    let refusal = fs_list_response(Err(failure(BackendErrorKind::Other)));
    assert_eq!(refusal.unwrap_err().code, "internal");
}

#[test]
fn metadata_and_presence_are_answered() {
    let metadata = FsMetadata {
        kind: FsEntryKind::Symlink,
        size: 1,
        mode: 2,
        readonly: false,
        modified: None,
        created: None,
    };
    assert_eq!(fs_stat_response(Ok(metadata)).unwrap().kind, CloudFsEntryKind::Symlink);
    let refusal = fs_stat_response(Err(failure(BackendErrorKind::VolumeNotFound)));
    assert_eq!(refusal.unwrap_err().code, "volume_not_found");
    assert!(fs_exists_response(Ok(true)).unwrap().exists);
    assert!(!fs_exists_response(Ok(false)).unwrap().exists);
    let refusal = fs_exists_response(Err(failure(BackendErrorKind::Other)));
    assert_eq!(refusal.unwrap_err().message, "told so");
}
