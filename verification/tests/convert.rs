use msb_cloud_adapter::backend::{
    EnvVar, FsEntry, FsEntryKind, FsMetadata, LogLevel, OciRootfsSource, RootfsSource,
    SandboxConfig, SandboxHandle, SandboxMetrics, SandboxPolicy, SandboxResources,
    SandboxRuntimeOptions, SandboxSpec, SandboxStatus, VolumeHandle,
};
use msb_cloud_adapter::cloud::{
    CloudCreateSandboxRequest, CloudFsEntryKind, CloudSandboxStatus, VolumeKind,
};
use msb_cloud_adapter::convert::{
    cloud_fs_entry_from_sdk, cloud_fs_kind_from_sdk, cloud_fs_metadata_from_sdk,
    cloud_metrics_from_sdk, cloud_request_from_config, cloud_request_from_handle,
    cloud_sandbox_at, cloud_sandbox_from_handle, cloud_sandbox_terminal_at,
    cloud_sandbox_terminal_from_handle, cloud_status_from_local, cloud_volume_from_handle,
    running_started_at, sandbox_config_from_cloud_request, sandbox_name_from_cloud_id, stopped_at,
};
use msb_cloud_adapter::error::{BackendError, BackendErrorKind, HttpStatus};
use msb_cloud_adapter::string_map::StringMap;
use msb_cloud_adapter::time::Timestamp;

fn at(secs: i64) -> Timestamp {
    Timestamp { secs, nanos: 5 }
}

fn config(name: &str) -> SandboxConfig {
    SandboxConfig {
        spec: SandboxSpec {
            name: name.to_string(),
            image: RootfsSource::Oci(OciRootfsSource {
                reference: "python:3.12".to_string(),
                upper_size_mib: Some(64),
            }),
            resources: SandboxResources { cpus: 2, memory_mib: 1024 },
            runtime: SandboxRuntimeOptions {
                workdir: Some("/app".to_string()),
                shell: None,
                scripts: StringMap::new(),
                entrypoint: Some(vec!["python".to_string(), "-u".to_string()]),
                hostname: None,
                user: Some("appuser".to_string()),
                log_level: Some(LogLevel { name: "info".to_string() }),
            },
            env: vec![
                EnvVar { key: "A".to_string(), value: "1".to_string() },
                EnvVar { key: "B".to_string(), value: "2".to_string() },
                EnvVar { key: "A".to_string(), value: "3".to_string() },
            ],
            lifecycle: SandboxPolicy {
                ephemeral: false,
                max_duration_secs: Some(3600),
                idle_timeout_secs: None,
            },
        },
    }
}

fn handle(name: &str, status: SandboxStatus) -> SandboxHandle {
    SandboxHandle {
        name: name.to_string(),
        status,
        config: Ok(config(name)),
        created_at: Some(at(100)),
        updated_at: Some(at(200)),
        last_error: None,
    }
}

fn full_request() -> CloudCreateSandboxRequest {
    let mut req = CloudCreateSandboxRequest {
        name: "agent-1".to_string(),
        image: "python:3.12".to_string(),
        vcpus: 3,
        workdir: Some("/app".to_string()),
        shell: Some("/bin/bash".to_string()),
        entrypoint: Some(vec!["python".to_string(), "-u".to_string()]),
        hostname: Some("worker".to_string()),
        user: Some("appuser".to_string()),
        log_level: Some("info".to_string()),
        max_duration_secs: Some(3600),
        idle_timeout_secs: Some(600),
        ..Default::default()
    };
    req.env.insert("K".to_string(), "V".to_string());
    req.scripts.insert("setup".to_string(), "echo hi".to_string());
    req
}

#[test]
fn request_becomes_a_configuration() {
    let level = Some(LogLevel { name: "info".to_string() });
    let config = sandbox_config_from_cloud_request(&full_request(), Ok(()), level).unwrap();
    let spec = config.spec;
    assert_eq!(spec.name, "agent-1");
    match spec.image {
        RootfsSource::Oci(image) => {
            assert_eq!(image.reference, "python:3.12");
            assert_eq!(image.upper_size_mib, None);
        }
        RootfsSource::Other => panic!("not an image"),
    }
    assert_eq!(spec.resources.cpus, 3);
    assert_eq!(spec.resources.memory_mib, 512);
    assert_eq!(spec.runtime.workdir.as_deref(), Some("/app"));
    assert_eq!(spec.runtime.shell.as_deref(), Some("/bin/bash"));
    assert_eq!(spec.runtime.scripts.get("setup"), Some("echo hi"));
    assert_eq!(spec.runtime.hostname.as_deref(), Some("worker"));
    assert_eq!(spec.runtime.log_level.unwrap().name, "info");
    assert_eq!(spec.env.len(), 1);
    assert_eq!(spec.env[0].key, "K");
    assert_eq!(spec.env[0].value, "V");
    assert!(spec.lifecycle.ephemeral);
    assert_eq!(spec.lifecycle.max_duration_secs, Some(3600));
    assert_eq!(spec.lifecycle.idle_timeout_secs, Some(600));
}

#[test]
fn refused_name_refuses_the_request() {
    let verdict = Err(BackendError {
        kind: BackendErrorKind::InvalidConfig,
        message: "bad name".to_string(),
    });
    let refusal = sandbox_config_from_cloud_request(&full_request(), verdict, None).unwrap_err();
    assert_eq!(refusal.status, HttpStatus::BadRequest);
    assert_eq!(refusal.code, "invalid_config");
    assert_eq!(refusal.message, "bad name");
}

#[test]
fn unknown_log_level_is_dropped() {
    let config = sandbox_config_from_cloud_request(&full_request(), Ok(()), None).unwrap();
    assert!(config.spec.runtime.log_level.is_none());
}

#[test]
fn request_survives_its_configuration() {
    let req = full_request();
    let level = Some(LogLevel { name: "info".to_string() });
    let config = sandbox_config_from_cloud_request(&req, Ok(()), level).unwrap();
    let back = cloud_request_from_config(&config).unwrap();
    assert_eq!(format!("{req:?}"), format!("{back:?}"));
}

#[test]
fn configuration_becomes_a_request() {
    let req = cloud_request_from_config(&config("box")).unwrap();
    assert_eq!(req.name, "box");
    assert_eq!(req.image, "python:3.12");
    assert_eq!(req.vcpus, 2);
    assert_eq!(req.memory_mib, 1024);
    assert_eq!(req.env.len(), 2);
    assert_eq!(req.env.get("A"), Some("3"));
    assert_eq!(req.env.get("B"), Some("2"));
    assert!(!req.ephemeral);
    assert_eq!(req.log_level.as_deref(), Some("info"));
}

#[test]
fn other_root_file_systems_are_refused() {
    let mut other = config("box");
    other.spec.image = RootfsSource::Other;
    let refusal = cloud_request_from_config(&other).unwrap_err();
    assert_eq!(refusal.status, HttpStatus::BadRequest);
    assert_eq!(refusal.code, "unsupported_rootfs");
    assert_eq!(
        refusal.message,
        "cloud adapter only exposes OCI-backed sandboxes through the cloud API",
    );
}

#[test]
fn unreadable_configuration_is_refused() {
    let mut broken = handle("box", SandboxStatus::Running);
    broken.config = Err(BackendError {
        kind: BackendErrorKind::Other,
        message: "no such column".to_string(),
    });
    let refusal = cloud_request_from_handle(&broken).unwrap_err();
    assert_eq!(refusal.code, "internal");
    assert_eq!(refusal.message, "no such column");
    let sandbox = cloud_sandbox_at(&broken, full_request(), at(1));
    assert!(sandbox.ephemeral);
}

#[test]
fn statuses_become_cloud_statuses() {
    for (local, cloud) in [
        (SandboxStatus::Created, CloudSandboxStatus::Created),
        (SandboxStatus::Starting, CloudSandboxStatus::Starting),
        (SandboxStatus::Running, CloudSandboxStatus::Running),
        (SandboxStatus::Draining, CloudSandboxStatus::Stopping),
        (SandboxStatus::Paused, CloudSandboxStatus::Running),
        (SandboxStatus::Stopped, CloudSandboxStatus::Stopped),
        (SandboxStatus::Crashed, CloudSandboxStatus::Failed),
    ] {
        assert_eq!(cloud_status_from_local(local), cloud);
    }
}

#[test]
fn start_and_stop_times_follow_the_status() {
    for (status, started, stopped) in [
        (SandboxStatus::Created, None, None),
        (SandboxStatus::Starting, None, None),
        (SandboxStatus::Running, Some(at(200)), None),
        (SandboxStatus::Draining, Some(at(200)), None),
        (SandboxStatus::Paused, None, None),
        (SandboxStatus::Stopped, None, Some(at(200))),
        (SandboxStatus::Crashed, None, Some(at(200))),
    ] {
        let handle = handle("box", status);
        assert_eq!(running_started_at(&handle), started);
        assert_eq!(stopped_at(&handle), stopped);
    }
    let mut fresh = handle("box", SandboxStatus::Running);
    fresh.updated_at = None;
    assert_eq!(running_started_at(&fresh), Some(at(100)));
    fresh.status = SandboxStatus::Stopped;
    assert_eq!(stopped_at(&fresh), None);
}

#[test]
fn sandbox_is_shown_as_its_handle_says() {
    let mut handle = handle("box", SandboxStatus::Draining);
    handle.last_error = Some("oom".to_string());
    let sandbox = cloud_sandbox_at(&handle, full_request(), at(999));
    assert_eq!(sandbox.id, "box");
    assert_eq!(sandbox.org_id, "local");
    assert_eq!(sandbox.name, "box");
    assert_eq!(sandbox.status, CloudSandboxStatus::Stopping);
    assert_eq!(sandbox.config.name, "agent-1");
    assert!(!sandbox.ephemeral);
    assert_eq!(sandbox.created_at, at(100));
    assert_eq!(sandbox.started_at, Some(at(200)));
    assert_eq!(sandbox.stopped_at, None);
    assert_eq!(sandbox.last_error.as_deref(), Some("oom"));
    handle.created_at = None;
    assert_eq!(cloud_sandbox_at(&handle, full_request(), at(999)).created_at, at(999));
}

#[test]
fn shown_id_addresses_the_sandbox() {
    let sandbox = cloud_sandbox_from_handle(&handle("box", SandboxStatus::Running), full_request());
    assert_eq!(sandbox_name_from_cloud_id(&sandbox.id), "box");
}

#[test]
fn unknown_creation_time_is_the_present() {
    let before = chrono::Utc::now();
    let mut handle = handle("box", SandboxStatus::Running);
    handle.created_at = None;
    let shown = cloud_sandbox_from_handle(&handle, full_request()).created_at;
    let after = chrono::Utc::now();
    assert!(before.timestamp() <= shown.secs && shown.secs <= after.timestamp());
    assert!(shown.nanos < 1_000_000_000);
}

#[test]
fn ended_sandbox_is_shown_with_the_given_status() {
    let sandbox = cloud_sandbox_terminal_at(
        &handle("box", SandboxStatus::Running),
        full_request(),
        CloudSandboxStatus::Stopped,
        at(300),
        at(301),
    );
    assert_eq!(sandbox.status, CloudSandboxStatus::Stopped);
    assert_eq!(sandbox.stopped_at, Some(at(301)));
    assert_eq!(sandbox.started_at, Some(at(200)));
    assert_eq!(sandbox.created_at, at(100));
    let before = chrono::Utc::now().timestamp();
    let shown = cloud_sandbox_terminal_from_handle(
        &handle("box", SandboxStatus::Running),
        full_request(),
        CloudSandboxStatus::Stopped,
    );
    assert!(shown.stopped_at.unwrap().secs >= before);
}

#[test]
fn volume_is_shown_as_its_handle_says() {
    let volume = cloud_volume_from_handle(&VolumeHandle {
        name: "data".to_string(),
        kind: VolumeKind { name: "disk".to_string() },
        quota_mib: Some(10),
        used_bytes: 11,
        capacity_bytes: Some(12),
        disk_format: Some("raw".to_string()),
        disk_fstype: None,
        labels: vec![("a".to_string(), "b".to_string())],
        created_at: Some(at(7)),
    });
    assert_eq!(volume.id, "data");
    assert_eq!(volume.org_id, "local");
    assert_eq!(volume.name, "data");
    assert_eq!(volume.kind.name, "disk");
    assert_eq!(volume.quota_mib, Some(10));
    assert_eq!(volume.used_bytes, 11);
    assert_eq!(volume.capacity_bytes, Some(12));
    assert_eq!(volume.disk_format.as_deref(), Some("raw"));
    assert_eq!(volume.disk_fstype, None);
    assert_eq!(volume.labels, vec![("a".to_string(), "b".to_string())]);
    assert_eq!(volume.created_at, Some(at(7)));
}

fn metrics(secs: u64, nanos: u32) -> SandboxMetrics {
    SandboxMetrics {
        cpu_percent_bits: 12.5f32.to_bits(),
        vcpu_time_ns: 1,
        memory_bytes: 2,
        memory_available_bytes: Some(3),
        memory_host_resident_bytes: None,
        memory_limit_bytes: 4,
        disk_read_bytes: 5,
        disk_write_bytes: 6,
        net_rx_bytes: 7,
        net_tx_bytes: 8,
        upper_used_bytes: Some(9),
        upper_free_bytes: None,
        upper_host_allocated_bytes: Some(10),
        uptime_secs: secs,
        uptime_subsec_nanos: nanos,
        timestamp: at(11),
    }
}

#[test]
fn metrics_are_passed_on() {
    let shown = cloud_metrics_from_sdk(metrics(12, 345_999_999));
    assert_eq!(f32::from_bits(shown.cpu_percent_bits), 12.5);
    assert_eq!(shown.vcpu_time_ns, 1);
    assert_eq!(shown.memory_bytes, 2);
    assert_eq!(shown.memory_available_bytes, Some(3));
    assert_eq!(shown.memory_host_resident_bytes, None);
    assert_eq!(shown.memory_limit_bytes, 4);
    assert_eq!(shown.disk_read_bytes, 5);
    assert_eq!(shown.disk_write_bytes, 6);
    assert_eq!(shown.net_rx_bytes, 7);
    assert_eq!(shown.net_tx_bytes, 8);
    assert_eq!(shown.upper_used_bytes, Some(9));
    assert_eq!(shown.upper_free_bytes, None);
    assert_eq!(shown.upper_host_allocated_bytes, Some(10));
    assert_eq!(shown.uptime_ms, 12_345);
    assert_eq!(shown.timestamp, at(11));
}

#[test]
fn uptime_agrees_with_durations_and_is_clamped() {
    for (secs, nanos) in [(0, 0), (0, 999_999), (0, 1_000_000), (86_400, 500_000_000)] {
        let duration = std::time::Duration::new(secs, nanos);
        let shown = cloud_metrics_from_sdk(metrics(secs, nanos)).uptime_ms;
        assert_eq!(u128::from(shown), duration.as_millis());
    }
    let last = u64::MAX / 1000;
    assert_eq!(cloud_metrics_from_sdk(metrics(last, 615_000_000)).uptime_ms, u64::MAX);
    assert_eq!(cloud_metrics_from_sdk(metrics(last, 614_000_000)).uptime_ms, u64::MAX - 1);
    assert_eq!(cloud_metrics_from_sdk(metrics(last, 616_000_000)).uptime_ms, u64::MAX);
    assert_eq!(cloud_metrics_from_sdk(metrics(u64::MAX, 0)).uptime_ms, u64::MAX);
}

#[test]
fn file_entries_are_passed_on() {
    for (kind, shown) in [
        (FsEntryKind::File, CloudFsEntryKind::File),
        (FsEntryKind::Directory, CloudFsEntryKind::Directory),
        (FsEntryKind::Symlink, CloudFsEntryKind::Symlink),
        (FsEntryKind::Other, CloudFsEntryKind::Other),
    ] {
        assert_eq!(cloud_fs_kind_from_sdk(kind), shown);
        let entry = cloud_fs_entry_from_sdk(FsEntry {
            path: "/etc".to_string(),
            kind,
            size: 1,
            mode: 0o644,
            modified: Some(at(2)),
        });
        assert_eq!(entry.path, "/etc");
        assert_eq!(entry.kind, shown);
        assert_eq!(entry.size, 1);
        assert_eq!(entry.mode, 0o644);
        assert_eq!(entry.modified, Some(at(2)));
        let metadata = cloud_fs_metadata_from_sdk(FsMetadata {
            kind,
            size: 3,
            mode: 0o600,
            readonly: true,
            modified: None,
            created: Some(at(4)),
        });
        assert_eq!(metadata.kind, shown);
        assert_eq!(metadata.size, 3);
        assert_eq!(metadata.mode, 0o600);
        assert!(metadata.readonly);
        assert_eq!(metadata.modified, None);
        assert_eq!(metadata.created, Some(at(4)));
    }
}
