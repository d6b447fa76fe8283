//! Shapes of the requests and responses of the cloud HTTP contract.
use crate::string_map::{Entry, StringMap};
use crate::text::{copy_opt_text, copy_opt_texts, opt_texts_view, opt_view, same_text};
use crate::time::Timestamp;
use vstd::prelude::*;
use vstd::string::*;

verus! {

/// Body of a request to create a sandbox.
#[derive(Debug)]
pub struct CloudCreateSandboxRequest {
    /// User-facing sandbox name.
    pub name: String,
    /// OCI image reference to run.
    pub image: String,
    /// Virtual CPU count.
    pub vcpus: u8,
    /// Guest memory in MiB.
    pub memory_mib: u32,
    /// Environment variables injected into the sandbox.
    pub env: StringMap,
    /// Whether the sandbox should be removed when its allocation terminates.
    pub ephemeral: bool,
    /// Working directory inside the guest.
    pub workdir: Option<String>,
    /// Default shell inside the guest.
    pub shell: Option<String>,
    /// OCI entrypoint override.
    pub entrypoint: Option<Vec<String>>,
    /// Guest hostname override.
    pub hostname: Option<String>,
    /// Guest user identity.
    pub user: Option<String>,
    /// Runtime log verbosity.
    pub log_level: Option<String>,
    /// Named scripts mounted into the guest.
    pub scripts: StringMap,
    /// Hard sandbox lifetime cap in seconds.
    pub max_duration_secs: Option<u64>,
    /// Idle timeout in seconds.
    pub idle_timeout_secs: Option<u64>,
}

/// What a [`CloudCreateSandboxRequest`] says.
#[verifier::ext_equal]
pub struct CreateRequestView {
    pub name: Seq<char>,
    pub image: Seq<char>,
    pub vcpus: u8,
    pub memory_mib: u32,
    pub env: Seq<Entry>,
    pub ephemeral: bool,
    pub workdir: Option<Seq<char>>,
    pub shell: Option<Seq<char>>,
    pub entrypoint: Option<Seq<Seq<char>>>,
    pub hostname: Option<Seq<char>>,
    pub user: Option<Seq<char>>,
    pub log_level: Option<Seq<char>>,
    pub scripts: Seq<Entry>,
    pub max_duration_secs: Option<u64>,
    pub idle_timeout_secs: Option<u64>,
}

impl View for CloudCreateSandboxRequest {
    type V = CreateRequestView;

    open spec fn view(&self) -> CreateRequestView {
        CreateRequestView {
            name: self.name@,
            image: self.image@,
            vcpus: self.vcpus,
            memory_mib: self.memory_mib,
            env: self.env.entries(),
            ephemeral: self.ephemeral,
            workdir: opt_view(self.workdir),
            shell: opt_view(self.shell),
            entrypoint: opt_texts_view(self.entrypoint),
            hostname: opt_view(self.hostname),
            user: opt_view(self.user),
            log_level: opt_view(self.log_level),
            scripts: self.scripts.entries(),
            max_duration_secs: self.max_duration_secs,
            idle_timeout_secs: self.idle_timeout_secs,
        }
    }
}

/// The request that every field is left out of: one virtual CPU, 512 MiB, ephemeral.
pub open spec fn default_request() -> CreateRequestView {
    CreateRequestView {
        name: Seq::empty(),
        image: Seq::empty(),
        vcpus: 1,
        memory_mib: 512,
        env: Seq::empty(),
        ephemeral: true,
        workdir: None,
        shell: None,
        entrypoint: None,
        hostname: None,
        user: None,
        log_level: None,
        scripts: Seq::empty(),
        max_duration_secs: None,
        idle_timeout_secs: None,
    }
}

impl Default for CloudCreateSandboxRequest {
    fn default() -> (request: Self)
        ensures
            request@ == default_request(),
    {
        CloudCreateSandboxRequest {
            name: String::new(),
            image: String::new(),
            vcpus: 1,
            memory_mib: 512,
            env: StringMap::new(),
            ephemeral: true,
            workdir: None,
            shell: None,
            entrypoint: None,
            hostname: None,
            user: None,
            log_level: None,
            scripts: StringMap::new(),
            max_duration_secs: None,
            idle_timeout_secs: None,
        }
    }
}

impl Clone for CloudCreateSandboxRequest {
    fn clone(&self) -> (copy: Self)
        ensures
            copy@ == self@,
            copy.name@ == self.name@,
            copy.image@ == self.image@,
            copy.vcpus == self.vcpus,
            copy.memory_mib == self.memory_mib,
            copy.env.entries() == self.env.entries(),
            copy.ephemeral == self.ephemeral,
            copy.scripts.entries() == self.scripts.entries(),
            copy.max_duration_secs == self.max_duration_secs,
            copy.idle_timeout_secs == self.idle_timeout_secs,
    {
        CloudCreateSandboxRequest {
            name: self.name.clone(),
            image: self.image.clone(),
            vcpus: self.vcpus,
            memory_mib: self.memory_mib,
            env: self.env.clone(),
            ephemeral: self.ephemeral,
            workdir: copy_opt_text(&self.workdir),
            shell: copy_opt_text(&self.shell),
            entrypoint: copy_opt_texts(&self.entrypoint),
            hostname: copy_opt_text(&self.hostname),
            user: copy_opt_text(&self.user),
            log_level: copy_opt_text(&self.log_level),
            scripts: self.scripts.clone(),
            max_duration_secs: self.max_duration_secs,
            idle_timeout_secs: self.idle_timeout_secs,
        }
    }
}

/// A sandbox, as the sandbox endpoints answer it.
#[derive(Debug, Clone)]
pub struct CloudSandbox {
    /// Identifier of the sandbox.
    pub id: String,
    /// Identifier of the owning organisation.
    pub org_id: String,
    /// User-facing sandbox name.
    pub name: String,
    /// Current lifecycle status.
    pub status: CloudSandboxStatus,
    /// The request that the sandbox was created by.
    pub config: CloudCreateSandboxRequest,
    /// Whether the sandbox should be removed when its allocation terminates.
    pub ephemeral: bool,
    /// Creation time.
    pub created_at: Timestamp,
    /// Last start time, when known.
    pub started_at: Option<Timestamp>,
    /// Last stop time, when known.
    pub stopped_at: Option<Timestamp>,
    /// Last failure reason, when any.
    pub last_error: Option<String>,
}

/// What a [`CloudSandbox`] says.
#[verifier::ext_equal]
pub struct SandboxView {
    pub id: Seq<char>,
    pub org_id: Seq<char>,
    pub name: Seq<char>,
    pub status: CloudSandboxStatus,
    pub config: CreateRequestView,
    pub ephemeral: bool,
    pub created_at: Timestamp,
    pub started_at: Option<Timestamp>,
    pub stopped_at: Option<Timestamp>,
    pub last_error: Option<Seq<char>>,
}

impl View for CloudSandbox {
    type V = SandboxView;

    open spec fn view(&self) -> SandboxView {
        SandboxView {
            id: self.id@,
            org_id: self.org_id@,
            name: self.name@,
            status: self.status,
            config: self.config@,
            ephemeral: self.ephemeral,
            created_at: self.created_at,
            started_at: self.started_at,
            stopped_at: self.stopped_at,
            last_error: opt_view(self.last_error),
        }
    }
}

/// Lifecycle status of a sandbox in the cloud contract.
#[derive(Debug, Clone, Copy, PartialEq, Eq, Structural)]
pub enum CloudSandboxStatus {
    /// Created but not yet started.
    Created,
    /// A start request has been submitted.
    Starting,
    /// Running.
    Running,
    /// A stop request has been submitted.
    Stopping,
    /// Stopped.
    Stopped,
    /// Failed.
    Failed,
}

/// The name of a status on the wire, in snake case.
pub open spec fn status_name(status: CloudSandboxStatus) -> Seq<char> {
    match status {
        CloudSandboxStatus::Created => "created"@,
        CloudSandboxStatus::Starting => "starting"@,
        CloudSandboxStatus::Running => "running"@,
        CloudSandboxStatus::Stopping => "stopping"@,
        CloudSandboxStatus::Stopped => "stopped"@,
        CloudSandboxStatus::Failed => "failed"@,
    }
}

/// The status that a name on the wire stands for.
pub open spec fn status_of_name(name: Seq<char>) -> Option<CloudSandboxStatus> {
    if name == "created"@ {
        Some(CloudSandboxStatus::Created)
    } else if name == "starting"@ {
        Some(CloudSandboxStatus::Starting)
    } else if name == "running"@ {
        Some(CloudSandboxStatus::Running)
    } else if name == "stopping"@ {
        Some(CloudSandboxStatus::Stopping)
    } else if name == "stopped"@ {
        Some(CloudSandboxStatus::Stopped)
    } else if name == "failed"@ {
        Some(CloudSandboxStatus::Failed)
    } else {
        None
    }
}

/// A status written to the wire is read back as itself, and what is read is what was written.
pub proof fn law_status_round_trips(status: CloudSandboxStatus, name: Seq<char>)
    ensures
        status_of_name(status_name(status)) == Some(status),
        status_of_name(name) is Some ==> status_name(status_of_name(name)->0) == name,
{
    reveal_strlit("created");
    reveal_strlit("starting");
    reveal_strlit("running");
    reveal_strlit("stopping");
    reveal_strlit("stopped");
    reveal_strlit("failed");
    assert("created"@[0] == 'c');
    assert("starting"@[0] == 's' && "starting"@[2] == 'a');
    assert("running"@[0] == 'r');
    assert("stopping"@[0] == 's' && "stopping"@[2] == 'o' && "stopping"@.len() == 8);
    assert("stopped"@[0] == 's' && "stopped"@[2] == 'o' && "stopped"@.len() == 7);
    assert("failed"@[0] == 'f');
}

impl CloudSandboxStatus {
    /// The name of the status on the wire.
    pub fn as_str(self) -> (name: &'static str)
        ensures
            name@ == status_name(self),
    {
        match self {
            CloudSandboxStatus::Created => "created",
            CloudSandboxStatus::Starting => "starting",
            CloudSandboxStatus::Running => "running",
            CloudSandboxStatus::Stopping => "stopping",
            CloudSandboxStatus::Stopped => "stopped",
            CloudSandboxStatus::Failed => "failed",
        }
    }

    /// The status that a name on the wire stands for.
    pub fn from_wire(name: &str) -> (status: Option<CloudSandboxStatus>)
        ensures
            status == status_of_name(name@),
    {
        if same_text(name, "created") {
            Some(CloudSandboxStatus::Created)
        } else if same_text(name, "starting") {
            Some(CloudSandboxStatus::Starting)
        } else if same_text(name, "running") {
            Some(CloudSandboxStatus::Running)
        } else if same_text(name, "stopping") {
            Some(CloudSandboxStatus::Stopping)
        } else if same_text(name, "stopped") {
            Some(CloudSandboxStatus::Stopped)
        } else if same_text(name, "failed") {
            Some(CloudSandboxStatus::Failed)
        } else {
            None
        }
    }
}

/// One page of a listing.
#[derive(Debug, Clone)]
pub struct CloudPaginated<T> {
    /// Items of the page.
    pub data: Vec<T>,
    /// Cursor for the next page, when one exists.
    pub next_cursor: Option<String>,
}

/// The message that a mutation is answered by.
#[derive(Debug, Clone)]
pub struct CloudMessageResponse {
    /// Human-readable response message.
    pub message: String,
}

/// A sample of the resource use of a sandbox.
#[derive(Debug, Clone, Copy)]
pub struct CloudSandboxMetrics {
    /// CPU usage as a percentage across all host CPUs: the bits of a single-precision number.
    pub cpu_percent_bits: u32,
    /// Cumulative guest vCPU execution time across all vCPUs.
    pub vcpu_time_ns: u64,
    /// Resident memory usage in bytes.
    pub memory_bytes: u64,
    /// Guest-available memory in bytes when reported by the guest.
    pub memory_available_bytes: Option<u64>,
    /// Host-resident guest memory in bytes for capacity diagnostics.
    pub memory_host_resident_bytes: Option<u64>,
    /// Configured guest memory limit in bytes.
    pub memory_limit_bytes: u64,
    /// Cumulative disk bytes read by the sandbox process.
    pub disk_read_bytes: u64,
    /// Cumulative disk bytes written by the sandbox process.
    pub disk_write_bytes: u64,
    /// Cumulative network bytes delivered from the runtime to the guest.
    pub net_rx_bytes: u64,
    /// Cumulative network bytes transmitted from the guest into the runtime.
    pub net_tx_bytes: u64,
    /// Guest-visible OCI upper filesystem used bytes when available.
    pub upper_used_bytes: Option<u64>,
    /// Guest-visible OCI upper filesystem free bytes when available.
    pub upper_free_bytes: Option<u64>,
    /// Host-allocated bytes for the writable upper image when available.
    pub upper_host_allocated_bytes: Option<u64>,
    /// Sandbox uptime in milliseconds.
    pub uptime_ms: u64,
    /// Time of the sample.
    pub timestamp: Timestamp,
}

/// Kind of a filesystem entry.
#[derive(Debug, Clone, Copy, PartialEq, Eq, Structural)]
pub enum CloudFsEntryKind {
    /// Regular file.
    File,
    /// Directory.
    Directory,
    /// Symbolic link.
    Symlink,
    /// Other filesystem node type.
    Other,
}

/// The name of an entry kind on the wire, in lower case.
pub open spec fn fs_kind_name(kind: CloudFsEntryKind) -> Seq<char> {
    match kind {
        CloudFsEntryKind::File => "file"@,
        CloudFsEntryKind::Directory => "directory"@,
        CloudFsEntryKind::Symlink => "symlink"@,
        CloudFsEntryKind::Other => "other"@,
    }
}

/// The entry kind that a name on the wire stands for.
pub open spec fn fs_kind_of_name(name: Seq<char>) -> Option<CloudFsEntryKind> {
    if name == "file"@ {
        Some(CloudFsEntryKind::File)
    } else if name == "directory"@ {
        Some(CloudFsEntryKind::Directory)
    } else if name == "symlink"@ {
        Some(CloudFsEntryKind::Symlink)
    } else if name == "other"@ {
        Some(CloudFsEntryKind::Other)
    } else {
        None
    }
}

/// An entry kind written to the wire is read back as itself, and what is read is what was
/// written.
pub proof fn law_fs_kind_round_trips(kind: CloudFsEntryKind, name: Seq<char>)
    ensures
        fs_kind_of_name(fs_kind_name(kind)) == Some(kind),
        fs_kind_of_name(name) is Some ==> fs_kind_name(fs_kind_of_name(name)->0) == name,
{
    reveal_strlit("file");
    reveal_strlit("directory");
    reveal_strlit("symlink");
    reveal_strlit("other");
    assert("file"@[0] == 'f');
    assert("directory"@[0] == 'd');
    assert("symlink"@[0] == 's');
    assert("other"@[0] == 'o');
}

impl CloudFsEntryKind {
    /// The name of the kind on the wire.
    pub fn as_str(self) -> (name: &'static str)
        ensures
            name@ == fs_kind_name(self),
    {
        match self {
            CloudFsEntryKind::File => "file",
            CloudFsEntryKind::Directory => "directory",
            CloudFsEntryKind::Symlink => "symlink",
            CloudFsEntryKind::Other => "other",
        }
    }

    /// The kind that a name on the wire stands for.
    pub fn from_wire(name: &str) -> (kind: Option<CloudFsEntryKind>)
        ensures
            kind == fs_kind_of_name(name@),
    {
        if same_text(name, "file") {
            Some(CloudFsEntryKind::File)
        } else if same_text(name, "directory") {
            Some(CloudFsEntryKind::Directory)
        } else if same_text(name, "symlink") {
            Some(CloudFsEntryKind::Symlink)
        } else if same_text(name, "other") {
            Some(CloudFsEntryKind::Other)
        } else {
            None
        }
    }
}

/// An entry of a directory listing.
#[derive(Debug, Clone)]
pub struct CloudFsEntry {
    /// Path of the entry.
    pub path: String,
    /// Kind of entry.
    pub kind: CloudFsEntryKind,
    /// Size in bytes.
    pub size: u64,
    /// Unix permission bits.
    pub mode: u32,
    /// Last modification time.
    pub modified: Option<Timestamp>,
}

/// Metadata of a filesystem entry.
#[derive(Debug, Clone, Copy)]
pub struct CloudFsMetadata {
    /// Kind of entry.
    pub kind: CloudFsEntryKind,
    /// Size in bytes.
    pub size: u64,
    /// Unix permission bits.
    pub mode: u32,
    /// Whether the entry is read-only.
    pub readonly: bool,
    /// Last modification time.
    pub modified: Option<Timestamp>,
    /// Creation time.
    pub created: Option<Timestamp>,
}

/// Whether a path exists.
#[derive(Debug, Clone, Copy)]
pub struct CloudFsExistsResponse {
    /// Whether the path exists.
    pub exists: bool,
}

/// Body of a request that changes one path.
#[derive(Debug, Clone)]
pub struct CloudFsPathRequest {
    /// Guest path.
    pub path: String,
}

/// Body of a request to copy or rename.
#[derive(Debug, Clone)]
pub struct CloudFsTwoPathRequest {
    /// Source guest path.
    pub from: String,
    /// Destination guest path.
    pub to: String,
}

/// Storage kind of a volume, by its name on the wire.
#[derive(Debug, Clone)]
pub struct VolumeKind {
    pub name: String,
}

/// A volume, as the volume endpoints answer it.
#[derive(Debug, Clone)]
pub struct CloudVolume {
    /// Identifier of the volume.
    pub id: String,
    /// Identifier of the owning organisation.
    pub org_id: String,
    /// User-facing volume name.
    pub name: String,
    /// Storage kind.
    pub kind: VolumeKind,
    /// Configured quota in MiB, when set.
    pub quota_mib: Option<u32>,
    /// Disk usage at the time the volume was looked up.
    pub used_bytes: u64,
    /// Disk capacity in bytes for disk volumes.
    pub capacity_bytes: Option<u64>,
    /// Disk image format for disk volumes.
    pub disk_format: Option<String>,
    /// Inner disk filesystem for disk volumes.
    pub disk_fstype: Option<String>,
    /// Key-value labels associated with the volume.
    pub labels: Vec<(String, String)>,
    /// Creation time.
    pub created_at: Option<Timestamp>,
}

/// What a [`CloudVolume`] says.
#[verifier::ext_equal]
pub struct VolumeView {
    pub id: Seq<char>,
    pub org_id: Seq<char>,
    pub name: Seq<char>,
    pub kind: Seq<char>,
    pub quota_mib: Option<u32>,
    pub used_bytes: u64,
    pub capacity_bytes: Option<u64>,
    pub disk_format: Option<Seq<char>>,
    pub disk_fstype: Option<Seq<char>>,
    pub labels: Seq<Entry>,
    pub created_at: Option<Timestamp>,
}

impl View for CloudVolume {
    type V = VolumeView;

    open spec fn view(&self) -> VolumeView {
        VolumeView {
            id: self.id@,
            org_id: self.org_id@,
            name: self.name@,
            kind: self.kind.name@,
            quota_mib: self.quota_mib,
            used_bytes: self.used_bytes,
            capacity_bytes: self.capacity_bytes,
            disk_format: opt_view(self.disk_format),
            disk_fstype: opt_view(self.disk_fstype),
            labels: crate::string_map::entries_view(self.labels@),
            created_at: self.created_at,
        }
    }
}

/// Error body of a refused request: flat, or with nested details.
#[derive(Debug, Clone)]
pub struct CloudErrorBody {
    /// Flat machine-readable error code.
    pub code: Option<String>,
    /// Flat human-readable error message.
    pub message: Option<String>,
    /// Nested error object.
    pub error: Option<CloudErrorDetails>,
}

/// Nested error details.
#[derive(Debug, Clone)]
pub struct CloudErrorDetails {
    /// Machine-readable error code.
    pub code: Option<String>,
    /// Human-readable error message.
    pub message: Option<String>,
}

} // verus!
