use msb_cloud_adapter::backend::{
    OciRootfsSource, RootfsSource, SandboxConfig, SandboxHandle, SandboxPolicy, SandboxResources,
    SandboxRuntimeOptions, SandboxSpec, SandboxStatus, VolumeHandle,
};
use msb_cloud_adapter::cloud::VolumeKind;
use msb_cloud_adapter::listing::{list_sandboxes, list_volumes, sort_volumes, ListQuery};
use msb_cloud_adapter::string_map::StringMap;

fn sandbox(name: &str, image: RootfsSource) -> SandboxHandle {
    SandboxHandle {
        name: name.to_string(),
        status: SandboxStatus::Running,
        config: Ok(SandboxConfig {
            spec: SandboxSpec {
                name: name.to_string(),
                image,
                resources: SandboxResources { cpus: 1, memory_mib: 512 },
                runtime: SandboxRuntimeOptions {
                    workdir: None,
                    shell: None,
                    scripts: StringMap::new(),
                    entrypoint: None,
                    hostname: None,
                    user: None,
                    log_level: None,
                },
                env: Vec::new(),
                lifecycle: SandboxPolicy {
                    ephemeral: true,
                    max_duration_secs: None,
                    idle_timeout_secs: None,
                },
            },
        }),
        created_at: None,
        updated_at: None,
        last_error: None,
    }
}

fn sandboxes(names: &[&str]) -> Vec<SandboxHandle> {
    names
        .iter()
        .map(|name| {
            let image = OciRootfsSource { reference: "alpine".to_string(), upper_size_mib: None };
            sandbox(name, RootfsSource::Oci(image))
        })
        .collect()
}

fn volume(name: &str, used_bytes: u64) -> VolumeHandle {
    VolumeHandle {
        name: name.to_string(),
        kind: VolumeKind { name: "directory".to_string() },
        quota_mib: None,
        used_bytes,
        capacity_bytes: None,
        disk_format: None,
        disk_fstype: None,
        labels: Vec::new(),
        created_at: None,
    }
}

fn volumes(names: &[&str]) -> Vec<VolumeHandle> {
    names.iter().map(|name| volume(name, 0)).collect()
}

fn query(cursor: Option<&str>, limit: Option<u32>) -> ListQuery {
    ListQuery { cursor: cursor.map(str::to_string), limit }
}

fn sandbox_page(names: &[&str], query: &ListQuery) -> (Vec<String>, Option<String>) {
    let page = list_sandboxes(&sandboxes(names), query).unwrap();
    (page.data.into_iter().map(|s| s.name).collect(), page.next_cursor)
}

fn volume_page(names: &[&str], query: &ListQuery) -> (Vec<String>, Option<String>) {
    let page = list_volumes(volumes(names), query);
    (page.data.into_iter().map(|v| v.name).collect(), page.next_cursor)
}

fn owned(names: &[&str]) -> Vec<String> {
    names.iter().map(|name| name.to_string()).collect()
}

#[test]
fn whole_list_has_no_cursor() {
    let all = ["a", "b", "c"];
    assert_eq!(sandbox_page(&all, &query(None, None)), (owned(&all), None));
    assert_eq!(volume_page(&all, &query(None, None)), (owned(&all), None));
    assert_eq!(sandbox_page(&[], &query(None, None)), (owned(&[]), None));
}

#[test]
fn cursor_is_given_where_a_page_follows() {
    let all = ["a", "b", "c"];
    let expected = (owned(&["a", "b"]), Some("b".to_string()));
    assert_eq!(sandbox_page(&all, &query(None, Some(2))), expected);
    assert_eq!(volume_page(&all, &query(None, Some(2))), expected);
    let last = (owned(&["c"]), None);
    assert_eq!(sandbox_page(&all, &query(Some("b"), Some(2))), last);
    assert_eq!(volume_page(&all, &query(Some("b"), Some(1))), last);
    let exact = (owned(&all), None);
    assert_eq!(sandbox_page(&all, &query(None, Some(3))), exact);
    assert_eq!(volume_page(&all, &query(None, Some(3))), exact);
    assert_eq!(volume_page(&["b", "a"], &query(None, Some(2))), (owned(&["a", "b"]), None));
    let short = (owned(&all), None);
    assert_eq!(sandbox_page(&all, &query(None, Some(4))), short);
    assert_eq!(volume_page(&all, &query(None, Some(4))), short);
}

#[test]
fn cursor_passes_over_names_up_to_it() {
    let all = ["a", "b", "c"];
    assert_eq!(sandbox_page(&all, &query(Some("a"), None)).0, owned(&["b", "c"]));
    assert_eq!(sandbox_page(&all, &query(Some("aa"), None)).0, owned(&["b", "c"]));
    assert_eq!(sandbox_page(&all, &query(Some(""), None)).0, owned(&all));
    assert_eq!(volume_page(&all, &query(Some("c"), None)), (owned(&[]), None));
    assert_eq!(sandbox_page(&["z", "a"], &query(Some("b"), None)).0, owned(&["z"]));
}

#[test]
fn limit_zero_counts_as_one() {
    let all = ["a", "b"];
    let expected = (owned(&["a"]), Some("a".to_string()));
    assert_eq!(sandbox_page(&["a"], &query(None, Some(0))), (owned(&["a"]), None));
    assert_eq!(sandbox_page(&all, &query(None, Some(0))), expected);
    assert_eq!(volume_page(&all, &query(None, Some(0))), expected);
    assert_eq!(sandbox_page(&[], &query(None, Some(0))), (owned(&[]), None));
    assert_eq!(volume_page(&[], &query(None, Some(0))), (owned(&[]), None));
}

#[test]
fn cursors_visit_every_item_once() {
    let all = ["a", "ab", "b", "ba", "c", "\u{e9}", "\u{10000}"];
    for limit in 1..9 {
        let mut seen: Vec<String> = Vec::new();
        let mut cursor: Option<String> = None;
        let size = limit as usize;
        for _ in 0..(all.len() + size - 1) / size {
            let (names, next) = volume_page(&all, &query(cursor.as_deref(), Some(limit)));
            assert!(!names.is_empty());
            seen.extend(names);
            cursor = next;
            if cursor.is_none() {
                break;
            }
        }
        assert!(cursor.is_none());
        assert_eq!(seen, owned(&all));
    }
}

#[test]
fn cursors_end_in_whatever_order_the_items_are() {
    let all = ["c", "a", "e", "b", "d"];
    for limit in 0..6 {
        let mut cursor: Option<String> = None;
        for _ in 0..all.len() {
            let (_, next) = sandbox_page(&all, &query(cursor.as_deref(), Some(limit)));
            cursor = next;
            if cursor.is_none() {
                break;
            }
        }
        assert!(cursor.is_none());
    }
}

#[test]
fn items_before_the_cursor_do_not_follow_a_page() {
    let expected = (owned(&["c"]), None);
    assert_eq!(sandbox_page(&["c", "a", "b"], &query(Some("b"), Some(1))), expected);
}

#[test]
fn names_are_ordered_by_bytes() {
    let names = ["b", "\u{10000}", "Z", "\u{ffff}", "a", "ab", ""];
    let sorted: Vec<String> = sort_volumes(volumes(&names)).into_iter().map(|v| v.name).collect();
    let mut expected = owned(&names);
    expected.sort();
    assert_eq!(sorted, expected);
    assert_eq!(volume_page(&names, &query(None, None)).0, expected);
}

#[test]
fn equal_names_stay_in_order() {
    let handles = vec![volume("b", 1), volume("a", 2), volume("b", 3), volume("a", 4)];
    let used: Vec<u64> = sort_volumes(handles).into_iter().map(|v| v.used_bytes).collect();
    assert_eq!(used, vec![2, 4, 1, 3]);
}

#[test]
fn sandboxes_are_listed_in_the_given_order() {
    assert_eq!(sandbox_page(&["b", "a"], &query(None, None)).0, owned(&["b", "a"]));
}

#[test]
fn sandbox_that_cannot_be_shown_refuses_the_page() {
    let mut handles = sandboxes(&["a", "c"]);
    handles.insert(1, sandbox("b", RootfsSource::Other));
    let refusal = list_sandboxes(&handles, &query(None, None)).unwrap_err();
    assert_eq!(refusal.code, "unsupported_rootfs");
    let before = list_sandboxes(&handles, &query(None, Some(1))).unwrap();
    assert_eq!(before.data.len(), 1);
    assert_eq!(before.next_cursor.as_deref(), Some("a"));
    let after = list_sandboxes(&handles, &query(Some("b"), None)).unwrap();
    assert_eq!(after.data[0].name, "c");
}
