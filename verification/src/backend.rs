//! What the gateway sees of the local runtime.
use crate::cloud::VolumeKind;
use crate::error::{BackendError, BackendErrorView};
use crate::string_map::{entries_view, Entry, StringMap};
use crate::text::{opt_texts_view, opt_view};
use crate::time::Timestamp;
use vstd::prelude::*;
use vstd::string::*;

verus! {

/// Lifecycle status of a local sandbox.
#[derive(Debug, Clone, Copy, PartialEq, Eq, Structural)]
pub enum SandboxStatus {
    Created,
    Starting,
    Running,
    Draining,
    Paused,
    Stopped,
    Crashed,
}

/// An OCI image as the root filesystem of a sandbox.
#[derive(Debug)]
pub struct OciRootfsSource {
    /// Image reference.
    pub reference: String,
    /// Size of the writable layer in MiB, when fixed.
    pub upper_size_mib: Option<u32>,
}

/// Where the root filesystem of a sandbox comes from.
#[derive(Debug)]
pub enum RootfsSource {
    /// An OCI image.
    Oci(OciRootfsSource),
    /// Any other source.
    Other,
}

/// What a [`RootfsSource`] says.
pub enum RootfsView {
    Oci { reference: Seq<char>, upper_size_mib: Option<u32> },
    Other,
}

impl View for RootfsSource {
    type V = RootfsView;

    open spec fn view(&self) -> RootfsView {
        match *self {
            RootfsSource::Oci(image) => RootfsView::Oci {
                reference: image.reference@,
                upper_size_mib: image.upper_size_mib,
            },
            RootfsSource::Other => RootfsView::Other,
        }
    }
}

/// Resources of a sandbox.
#[derive(Debug, Clone, Copy)]
pub struct SandboxResources {
    pub cpus: u8,
    pub memory_mib: u32,
}

/// A log level of the runtime, by its canonical name.
#[derive(Debug)]
pub struct LogLevel {
    pub name: String,
}

/// The canonical name of an optional log level.
pub open spec fn opt_level_view(level: Option<LogLevel>) -> Option<Seq<char>> {
    match level {
        Some(level) => Some(level.name@),
        None => None,
    }
}

/// Runtime options of a sandbox.
#[derive(Debug)]
pub struct SandboxRuntimeOptions {
    pub workdir: Option<String>,
    pub shell: Option<String>,
    pub scripts: StringMap,
    pub entrypoint: Option<Vec<String>>,
    pub hostname: Option<String>,
    pub user: Option<String>,
    pub log_level: Option<LogLevel>,
}

/// An environment variable.
#[derive(Debug)]
pub struct EnvVar {
    pub key: String,
    pub value: String,
}

/// The keys and values of environment variables.
pub open spec fn env_view(env: Seq<EnvVar>) -> Seq<Entry> {
    Seq::new(env.len(), |i: int| (env[i].key@, env[i].value@))
}

/// Lifecycle policy of a sandbox.
#[derive(Debug, Clone, Copy)]
pub struct SandboxPolicy {
    pub ephemeral: bool,
    pub max_duration_secs: Option<u64>,
    pub idle_timeout_secs: Option<u64>,
}

/// What a sandbox is made of.
#[derive(Debug)]
pub struct SandboxSpec {
    pub name: String,
    pub image: RootfsSource,
    pub resources: SandboxResources,
    pub runtime: SandboxRuntimeOptions,
    pub env: Vec<EnvVar>,
    pub lifecycle: SandboxPolicy,
}

/// Configuration of a local sandbox.
#[derive(Debug)]
pub struct SandboxConfig {
    pub spec: SandboxSpec,
}

/// What a [`SandboxConfig`] says.
#[verifier::ext_equal]
pub struct ConfigView {
    pub name: Seq<char>,
    pub image: RootfsView,
    pub cpus: u8,
    pub memory_mib: u32,
    pub workdir: Option<Seq<char>>,
    pub shell: Option<Seq<char>>,
    pub scripts: Seq<Entry>,
    pub entrypoint: Option<Seq<Seq<char>>>,
    pub hostname: Option<Seq<char>>,
    pub user: Option<Seq<char>>,
    pub log_level: Option<Seq<char>>,
    pub env: Seq<Entry>,
    pub ephemeral: bool,
    pub max_duration_secs: Option<u64>,
    pub idle_timeout_secs: Option<u64>,
}

impl View for SandboxConfig {
    type V = ConfigView;

    open spec fn view(&self) -> ConfigView {
        ConfigView {
            name: self.spec.name@,
            image: self.spec.image@,
            cpus: self.spec.resources.cpus,
            memory_mib: self.spec.resources.memory_mib,
            workdir: opt_view(self.spec.runtime.workdir),
            shell: opt_view(self.spec.runtime.shell),
            scripts: self.spec.runtime.scripts.entries(),
            entrypoint: opt_texts_view(self.spec.runtime.entrypoint),
            hostname: opt_view(self.spec.runtime.hostname),
            user: opt_view(self.spec.runtime.user),
            log_level: opt_level_view(self.spec.runtime.log_level),
            env: env_view(self.spec.env@),
            ephemeral: self.spec.lifecycle.ephemeral,
            max_duration_secs: self.spec.lifecycle.max_duration_secs,
            idle_timeout_secs: self.spec.lifecycle.idle_timeout_secs,
        }
    }
}

/// A local sandbox as it was looked up.
#[derive(Debug)]
pub struct SandboxHandle {
    /// Name of the sandbox.
    pub name: String,
    /// Status at the time it was looked up.
    pub status: SandboxStatus,
    /// The stored configuration, or why it cannot be read.
    pub config: Result<SandboxConfig, BackendError>,
    /// Creation time, when known.
    pub created_at: Option<Timestamp>,
    /// Time of the last change, when known.
    pub updated_at: Option<Timestamp>,
    /// Last failure reason, when any.
    pub last_error: Option<String>,
}

/// What a [`SandboxHandle`] says.
#[verifier::ext_equal]
pub struct HandleView {
    pub name: Seq<char>,
    pub status: SandboxStatus,
    pub config: Result<ConfigView, BackendErrorView>,
    pub created_at: Option<Timestamp>,
    pub updated_at: Option<Timestamp>,
    pub last_error: Option<Seq<char>>,
}

impl View for SandboxHandle {
    type V = HandleView;

    open spec fn view(&self) -> HandleView {
        HandleView {
            name: self.name@,
            status: self.status,
            config: match self.config {
                Ok(config) => Ok(config@),
                Err(error) => Err(error@),
            },
            created_at: self.created_at,
            updated_at: self.updated_at,
            last_error: opt_view(self.last_error),
        }
    }
}

/// A local volume as it was looked up.
#[derive(Debug)]
pub struct VolumeHandle {
    pub name: String,
    pub kind: VolumeKind,
    pub quota_mib: Option<u32>,
    pub used_bytes: u64,
    pub capacity_bytes: Option<u64>,
    pub disk_format: Option<String>,
    pub disk_fstype: Option<String>,
    pub labels: Vec<(String, String)>,
    pub created_at: Option<Timestamp>,
}

/// What a [`VolumeHandle`] says.
#[verifier::ext_equal]
pub struct VolumeHandleView {
    pub name: Seq<char>,
    pub kind: Seq<char>,
    pub quota_mib: Option<u32>,
    pub used_bytes: u64,
    pub capacity_bytes: Option<u64>,
    pub disk_format: Option<Seq<char>>,
    pub disk_fstype: Option<Seq<char>>,
    pub labels: Seq<Entry>,
    pub created_at: Option<Timestamp>,
}

impl View for VolumeHandle {
    type V = VolumeHandleView;

    open spec fn view(&self) -> VolumeHandleView {
        VolumeHandleView {
            name: self.name@,
            kind: self.kind.name@,
            quota_mib: self.quota_mib,
            used_bytes: self.used_bytes,
            capacity_bytes: self.capacity_bytes,
            disk_format: opt_view(self.disk_format),
            disk_fstype: opt_view(self.disk_fstype),
            labels: entries_view(self.labels@),
            created_at: self.created_at,
        }
    }
}

/// Kind of a filesystem entry as the runtime reports it.
#[derive(Debug, Clone, Copy, PartialEq, Eq, Structural)]
pub enum FsEntryKind {
    File,
    Directory,
    Symlink,
    Other,
}

/// An entry of a directory as the runtime reports it.
#[derive(Debug)]
pub struct FsEntry {
    pub path: String,
    pub kind: FsEntryKind,
    pub size: u64,
    pub mode: u32,
    pub modified: Option<Timestamp>,
}

/// Metadata of a path as the runtime reports it.
#[derive(Debug, Clone, Copy)]
pub struct FsMetadata {
    pub kind: FsEntryKind,
    pub size: u64,
    pub mode: u32,
    pub readonly: bool,
    pub modified: Option<Timestamp>,
    pub created: Option<Timestamp>,
}

/// A sample of the resource use of a sandbox as the runtime takes it.
#[derive(Debug, Clone, Copy)]
pub struct SandboxMetrics {
    /// CPU usage in percent: the bits of a single-precision number.
    pub cpu_percent_bits: u32,
    pub vcpu_time_ns: u64,
    pub memory_bytes: u64,
    pub memory_available_bytes: Option<u64>,
    pub memory_host_resident_bytes: Option<u64>,
    pub memory_limit_bytes: u64,
    pub disk_read_bytes: u64,
    pub disk_write_bytes: u64,
    pub net_rx_bytes: u64,
    pub net_tx_bytes: u64,
    pub upper_used_bytes: Option<u64>,
    pub upper_free_bytes: Option<u64>,
    pub upper_host_allocated_bytes: Option<u64>,
    /// Whole seconds of the uptime.
    pub uptime_secs: u64,
    /// Nanoseconds of the uptime beyond the whole seconds.
    pub uptime_subsec_nanos: u32,
    pub timestamp: Timestamp,
}

} // verus!
