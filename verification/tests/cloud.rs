use msb_cloud_adapter::cloud::{CloudCreateSandboxRequest, CloudFsEntryKind, CloudSandboxStatus};
use msb_cloud_adapter::string_map::StringMap;

#[test]
fn sandbox_status_round_trips() {
    for status in [
        CloudSandboxStatus::Created,
        CloudSandboxStatus::Starting,
        CloudSandboxStatus::Running,
        CloudSandboxStatus::Stopping,
        CloudSandboxStatus::Stopped,
        CloudSandboxStatus::Failed,
    ] {
        let s = serde_json::to_string(status.as_str()).unwrap();
        let name: String = serde_json::from_str(&s).unwrap();
        let parsed = CloudSandboxStatus::from_wire(&name).unwrap();
        assert_eq!(status, parsed);
    }
}

#[test]
fn sandbox_status_serialises_snake_case() {
    let s = serde_json::to_string(CloudSandboxStatus::Starting.as_str()).unwrap();
    assert_eq!(s, "\"starting\"");
}

#[test]
fn sandbox_status_names() {
    assert_eq!(CloudSandboxStatus::Created.as_str(), "created");
    assert_eq!(CloudSandboxStatus::Starting.as_str(), "starting");
    assert_eq!(CloudSandboxStatus::Running.as_str(), "running");
    assert_eq!(CloudSandboxStatus::Stopping.as_str(), "stopping");
    assert_eq!(CloudSandboxStatus::Stopped.as_str(), "stopped");
    assert_eq!(CloudSandboxStatus::Failed.as_str(), "failed");
}

#[test]
fn unknown_names_are_no_status() {
    assert!(CloudSandboxStatus::from_wire("Starting").is_none());
    assert!(CloudSandboxStatus::from_wire("").is_none());
    assert!(CloudSandboxStatus::from_wire("paused").is_none());
}

#[test]
fn fs_kind_names_round_trip() {
    for (kind, name) in [
        (CloudFsEntryKind::File, "file"),
        (CloudFsEntryKind::Directory, "directory"),
        (CloudFsEntryKind::Symlink, "symlink"),
        (CloudFsEntryKind::Other, "other"),
    ] {
        assert_eq!(kind.as_str(), name);
        assert_eq!(CloudFsEntryKind::from_wire(name), Some(kind));
    }
    assert!(CloudFsEntryKind::from_wire("socket").is_none());
}

#[test]
fn request_defaults() {
    let request = CloudCreateSandboxRequest {
        name: "agent-1".to_string(),
        image: "python:3.12".to_string(),
        ..Default::default()
    };
    assert_eq!(request.name, "agent-1");
    assert_eq!(request.image, "python:3.12");
    assert_eq!(request.vcpus, 1);
    assert_eq!(request.memory_mib, 512);
    assert!(request.ephemeral);
    assert_eq!(request.env.len(), 0);
    assert_eq!(request.scripts.len(), 0);
    assert!(request.workdir.is_none());
    assert!(request.shell.is_none());
    assert!(request.entrypoint.is_none());
    assert!(request.hostname.is_none());
    assert!(request.user.is_none());
    assert!(request.log_level.is_none());
    assert!(request.max_duration_secs.is_none());
    assert!(request.idle_timeout_secs.is_none());
}

#[test]
fn cloned_request_says_the_same() {
    let mut request = CloudCreateSandboxRequest {
        name: "agent-1".to_string(),
        image: "python:3.12".to_string(),
        workdir: Some("/app".to_string()),
        entrypoint: Some(vec!["python".to_string(), "-u".to_string()]),
        max_duration_secs: Some(3600),
        ..Default::default()
    };
    request.scripts.insert("setup".to_string(), "echo hi".to_string());
    let copy = request.clone();
    assert_eq!(copy.name, "agent-1");
    assert_eq!(copy.workdir.as_deref(), Some("/app"));
    assert_eq!(copy.entrypoint, Some(vec!["python".to_string(), "-u".to_string()]));
    assert_eq!(copy.max_duration_secs, Some(3600));
    assert_eq!(copy.scripts.get("setup"), Some("echo hi"));
}

#[test]
fn string_map_keeps_the_last_value_in_the_first_place() {
    let mut map = StringMap::new();
    map.insert("b".to_string(), "1".to_string());
    map.insert("a".to_string(), "2".to_string());
    map.insert("b".to_string(), "3".to_string());
    assert_eq!(map.len(), 2);
    assert_eq!(map.entry(0), ("b", "3"));
    assert_eq!(map.entry(1), ("a", "2"));
    assert_eq!(map.get("b"), Some("3"));
    assert_eq!(map.get("c"), None);
}
