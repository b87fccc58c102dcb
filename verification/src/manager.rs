//! The store manager: how a store is started, stopped and described.

use crate::image::{description, image_model, Boomerang, BOOMERANG_PORT};
use crate::json::{json_of, natural_value, set_member, Json, JsonNumber, Members};
use crate::number::{as_signed, decimal, decimal_text, twos_complement};
use crate::text::{from_utf8_lossy, optional_text, utf8_lossy};
use vstd::prelude::*;

verus! {

/// How many files a container may hold open.
pub const OPEN_FILES: i64 = 1_048_576;

/// How long a started store may take to answer, in seconds.
pub const READY_TIMEOUT_SECS: u64 = 60;

/// A store that runs in a container, or that someone else runs.
#[derive(Debug, Clone, PartialEq, Eq)]
pub struct BoomerangStoreManager {
    pub uri: String,
    /// The container of the store, by its id, while it runs.
    pub container: Option<String>,
    pub use_docker: bool,
    pub data_dir: Option<String>,
    pub memory_limit_mb: Option<u64>,
    pub docker_platform: Option<String>,
    pub store_name: &'static str,
    pub durability: &'static str,
}

/// How a container is run.
#[derive(Debug, Clone, PartialEq, Eq)]
pub struct ContainerSpec {
    pub image: Boomerang,
    pub user: Option<String>,
    pub open_files: i64,
    pub platform: Option<String>,
    pub memory_bytes: Option<i64>,
}

/// A check that a store answers.
#[derive(Debug, Clone, PartialEq, Eq)]
pub struct ReadinessCheck {
    pub store_name: &'static str,
    pub uri: String,
    pub timeout_secs: u64,
}

/// What has happened in the start of a store.
#[derive(Debug, Clone, PartialEq, Eq)]
pub enum StartEvent {
    /// The start was asked for.
    Begin,
    /// The data directory is set up: where it is mounted from, the user and group of this process
    /// where the system has them, and the setting of the segment size.
    DataDirReady {
        mount_path: Option<String>,
        owner: Option<(u32, u32)>,
        segment_setting: Option<String>,
    },
    /// The container runs: its id, and the port of the host that leads to it.
    ContainerStarted { id: String, host_port: u16 },
    /// The store answers.
    Ready,
}

/// What the start of a store does next.
#[derive(Debug, Clone, PartialEq, Eq)]
pub enum StartAction {
    SetUpDataDir,
    StartContainer(ContainerSpec),
    AwaitReady(ReadinessCheck),
    Done,
}

/// What has happened in the stop of a store.
#[derive(Debug, Clone, PartialEq, Eq)]
pub enum StopEvent {
    /// The stop was asked for.
    Begin,
    /// The container was stopped.
    ContainerStopped,
    /// The data directory was cleaned up.
    CleanedUp,
}

/// What the stop of a store does next.
#[derive(Debug, Clone, PartialEq, Eq)]
pub enum StopAction {
    StopContainer(String),
    CleanUpDataDir,
    Done,
}

/// The address of a store on a port of this host.
pub open spec fn local_uri(host_port: u16) -> Seq<char> {
    "http://127.0.0.1:"@ + decimal(host_port as nat)
}

/// The address of a store, given the setting of one.
pub open spec fn store_uri(setting: Option<Seq<char>>) -> Seq<char> {
    match setting {
        Some(uri) => uri,
        None => local_uri(BOOMERANG_PORT),
    }
}

/// A user and a group, as a container takes them.
pub open spec fn user_text(owner: (u32, u32)) -> Seq<char> {
    decimal(owner.0 as nat) + ":"@ + decimal(owner.1 as nat)
}

/// A memory limit whose bytes can be counted.
pub open spec fn countable(limit_mb: Option<u64>) -> bool {
    limit_mb is Some ==> limit_mb->0 * 1024 * 1024 <= u64::MAX
}

/// The bytes of a memory limit.
pub open spec fn memory_bytes(limit_mb: Option<u64>) -> Option<int> {
    match limit_mb {
        Some(limit_mb) => Some(twos_complement((limit_mb * 1024 * 1024) as u64)),
        None => None,
    }
}

/// `container` says how the container of `manager` is run on a mount.
pub open spec fn runs(
    container: ContainerSpec,
    manager: BoomerangStoreManager,
    mount_path: Option<String>,
    owner: Option<(u32, u32)>,
    segment_setting: Option<String>,
) -> bool {
    &&& container.image@ == image_model(
        optional_text(mount_path),
        manager.durability@,
        optional_text(segment_setting),
    )
    &&& optional_text(container.user) == (if mount_path is Some && owner is Some {
        Some(user_text(owner->0))
    } else {
        None
    })
    &&& container.open_files == OPEN_FILES
    &&& optional_text(container.platform) == optional_text(manager.docker_platform)
    &&& (match container.memory_bytes {
        Some(bytes) => Some(bytes as int),
        None => None,
    }) == memory_bytes(manager.memory_limit_mb)
}

/// One step of the start of a store, from `before` to `after`.
pub open spec fn start_step(
    before: BoomerangStoreManager,
    event: StartEvent,
    after: BoomerangStoreManager,
    action: StartAction,
) -> bool {
    match event {
        StartEvent::Begin => {
            &&& after == before
            &&& action == (if before.use_docker {
                StartAction::SetUpDataDir
            } else {
                StartAction::Done
            })
        },
        StartEvent::DataDirReady { mount_path, owner, segment_setting } => {
            &&& after == before
            &&& action is StartContainer
            &&& runs(action->StartContainer_0, before, mount_path, owner, segment_setting)
        },
        StartEvent::ContainerStarted { id, host_port } => {
            &&& after.uri@ == local_uri(host_port)
            &&& after == (BoomerangStoreManager { uri: after.uri, container: Some(id), ..before })
            &&& action is AwaitReady
            &&& action->AwaitReady_0.store_name == before.store_name
            &&& action->AwaitReady_0.uri@ == local_uri(host_port)
            &&& action->AwaitReady_0.timeout_secs == READY_TIMEOUT_SECS
        },
        StartEvent::Ready => after == before && action is Done,
    }
}

/// One step of the stop of a store, from `before` to `after`.
pub open spec fn stop_step(
    before: BoomerangStoreManager,
    event: StopEvent,
    after: BoomerangStoreManager,
    action: StopAction,
) -> bool {
    match event {
        StopEvent::Begin => {
            &&& action == (match before.container {
                Some(id) => StopAction::StopContainer(id),
                None => StopAction::CleanUpDataDir,
            })
            &&& after == (BoomerangStoreManager { container: None, ..before })
        },
        StopEvent::ContainerStopped => action is CleanUpDataDir && after == before,
        StopEvent::CleanedUp => action is Done && after == before,
    }
}

/// How a run describes a store: its image, and the memory limit where it has one.
pub open spec fn store_description(
    manager: BoomerangStoreManager,
    git_sha: Option<Seq<char>>,
    segment_setting: Option<Seq<char>>,
) -> Members {
    let image = description(manager.durability@, git_sha, segment_setting);
    match manager.memory_limit_mb {
        Some(limit_mb) => image.insert(
            "memory_limit_mb"@,
            Json::Number(JsonNumber::Natural(limit_mb)),
        ),
        None => image,
    }
}

/// The logs of a container, standard error after standard output.
pub open spec fn joined_logs(stdout: Seq<char>, stderr: Option<Seq<char>>) -> Seq<char> {
    match stderr {
        Some(stderr) => stdout + "\n--- STDERR ---\n"@ + stderr,
        None => stdout,
    }
}

/// The logs of a store, given what its container wrote to standard output and standard error.
pub open spec fn store_logs(output: Option<(Vec<u8>, Vec<u8>)>) -> Seq<char> {
    match output {
        Some((stdout, stderr)) => joined_logs(
            utf8_lossy(stdout@),
            if stderr@.len() > 0 {
                Some(utf8_lossy(stderr@))
            } else {
                None
            },
        ),
        None => "No logs"@,
    }
}

impl BoomerangStoreManager {
    /// The store as it is published: it makes every write durable before it answers.
    pub fn fsync(
        uri_setting: Option<String>,
        data_dir: Option<String>,
        use_docker: bool,
    ) -> (manager: Self)
        ensures
            manager.uri@ == store_uri(optional_text(uri_setting)),
            manager.container is None,
            manager.use_docker == use_docker,
            manager.data_dir == data_dir,
            manager.memory_limit_mb is None,
            manager.docker_platform is None,
            manager.store_name@ == "boomerang"@,
            manager.durability@ == "Fsync"@,
    {
        Self::new("boomerang", "Fsync", uri_setting, data_dir, use_docker)
    }

    /// A store that is not started yet.
    fn new(
        store_name: &'static str,
        durability: &'static str,
        uri_setting: Option<String>,
        data_dir: Option<String>,
        use_docker: bool,
    ) -> (manager: Self)
        ensures
            manager.uri@ == store_uri(optional_text(uri_setting)),
            manager.container is None,
            manager.use_docker == use_docker,
            manager.data_dir == data_dir,
            manager.memory_limit_mb is None,
            manager.docker_platform is None,
            manager.store_name == store_name,
            manager.durability == durability,
    {
        BoomerangStoreManager {
            uri: Self::get_uri(uri_setting),
            container: None,
            use_docker,
            data_dir,
            memory_limit_mb: None,
            docker_platform: None,
            store_name,
            durability,
        }
    }

    /// The address of a store on a port of this host.
    pub fn format_uri(host_port: u16) -> (uri: String)
        ensures
            uri@ == local_uri(host_port),
    {
        let port = decimal_text(host_port as u64);
        "http://127.0.0.1:".to_string().concat(port.as_str())
    }

    /// The address of a store, given the setting `BOOMERANG_URI`.
    pub fn get_uri(setting: Option<String>) -> (uri: String)
        ensures
            uri@ == store_uri(optional_text(setting)),
    {
        match setting {
            Some(uri) => uri,
            None => Self::format_uri(BOOMERANG_PORT),
        }
    }

    /// How the container of the store is run on a mount.
    fn container_spec(
        &self,
        mount_path: Option<String>,
        owner: Option<(u32, u32)>,
        segment_setting: Option<String>,
    ) -> (container: ContainerSpec)
        requires
            countable(self.memory_limit_mb),
        ensures
            runs(container, *self, mount_path, owner, segment_setting),
    {
        let user = match (&mount_path, owner) {
            (Some(_), Some((uid, gid))) => {
                let group = decimal_text(gid as u64);
                Some(decimal_text(uid as u64).concat(":").concat(group.as_str()))
            },
            _ => None,
        };
        let platform = match &self.docker_platform {
            Some(platform) => Some(platform.clone()),
            None => None,
        };
        let memory_bytes = match self.memory_limit_mb {
            Some(limit_mb) => Some(as_signed(limit_mb * 1024 * 1024)),
            None => None,
        };
        ContainerSpec {
            image: Boomerang::new(mount_path, self.durability, segment_setting),
            user,
            open_files: OPEN_FILES,
            platform,
            memory_bytes,
        }
    }

    /// What the start of the store does next. A container runs as the owner of this process where
    /// it writes to a directory of the host, so that its files can be removed again.
    pub fn start(&mut self, event: StartEvent) -> (action: StartAction)
        requires
            event is DataDirReady ==> countable(old(self).memory_limit_mb),
        ensures
            start_step(*old(self), event, *final(self), action),
    {
        match event {
            StartEvent::Begin => if self.use_docker {
                StartAction::SetUpDataDir
            } else {
                StartAction::Done
            },
            StartEvent::DataDirReady { mount_path, owner, segment_setting } => {
                StartAction::StartContainer(self.container_spec(mount_path, owner, segment_setting))
            },
            StartEvent::ContainerStarted { id, host_port } => {
                self.uri = Self::format_uri(host_port);
                self.container = Some(id);
                StartAction::AwaitReady(
                    ReadinessCheck {
                        store_name: self.store_name,
                        uri: self.uri.clone(),
                        timeout_secs: READY_TIMEOUT_SECS,
                    },
                )
            },
            StartEvent::Ready => StartAction::Done,
        }
    }

    /// What the stop of the store does next. The container is given up before it is stopped.
    pub fn stop(&mut self, event: StopEvent) -> (action: StopAction)
        ensures
            stop_step(*old(self), event, *final(self), action),
    {
        match event {
            StopEvent::Begin => match self.container.take() {
                Some(id) => StopAction::StopContainer(id),
                None => StopAction::CleanUpDataDir,
            },
            StopEvent::ContainerStopped => StopAction::CleanUpDataDir,
            StopEvent::CleanedUp => StopAction::Done,
        }
    }

    /// Whether the store runs in a container.
    pub fn use_docker(&self) -> (use_docker: bool)
        ensures
            use_docker == self.use_docker,
    {
        self.use_docker
    }

    /// The id of the container, while it runs.
    pub fn container_id(&self) -> (id: Option<String>)
        ensures
            optional_text(id) == optional_text(self.container),
    {
        match &self.container {
            Some(id) => Some(id.clone()),
            None => None,
        }
    }

    /// Sets the memory limit of the container.
    pub fn set_memory_limit(&mut self, limit_mb: Option<u64>)
        ensures
            *final(self) == (BoomerangStoreManager { memory_limit_mb: limit_mb, ..*old(self) }),
    {
        self.memory_limit_mb = limit_mb;
    }

    /// Sets the platform of the container.
    pub fn set_docker_platform(&mut self, platform: Option<String>)
        ensures
            *final(self) == (BoomerangStoreManager { docker_platform: platform, ..*old(self) }),
    {
        self.docker_platform = platform;
    }

    /// The name of the store.
    pub fn name(&self) -> (name: &'static str)
        ensures
            name == self.store_name,
    {
        self.store_name
    }

    /// How a run records the store.
    pub fn describe(
        &self,
        git_sha: Option<String>,
        segment_setting: Option<String>,
    ) -> (described: serde_json::Value)
        ensures
            json_of(described) == Json::Object(
                store_description(*self, optional_text(git_sha), optional_text(segment_setting)),
            ),
    {
        let mut described = Boomerang::describe(self.durability, git_sha, segment_setting);
        if let Some(limit_mb) = self.memory_limit_mb {
            set_member(&mut described, "memory_limit_mb", natural_value(limit_mb));
        }
        described
    }

    /// The logs of a container as one text.
    pub fn join_logs(stdout: String, stderr: Option<String>) -> (logs: String)
        ensures
            logs@ == joined_logs(stdout@, optional_text(stderr)),
    {
        match stderr {
            Some(stderr) => stdout.concat("\n--- STDERR ---\n").concat(stderr.as_str()),
            None => stdout,
        }
    }

    /// The logs of the store, given what its container wrote to standard output and standard
    /// error, where it has one.
    pub fn logs(output: Option<(Vec<u8>, Vec<u8>)>) -> (logs: String)
        ensures
            logs@ == store_logs(output),
    {
        match output {
            Some((stdout, stderr)) => {
                let errors = if stderr.len() > 0 {
                    Some(from_utf8_lossy(stderr.as_slice()))
                } else {
                    None
                };
                Self::join_logs(from_utf8_lossy(stdout.as_slice()), errors)
            },
            None => "No logs".to_string(),
        }
    }
}

/// Makes store managers by the name of their store.
pub struct BoomerangFactory;

impl BoomerangFactory {
    /// The name of the store.
    pub fn name(&self) -> (name: &'static str)
        ensures
            name@ == "boomerang"@,
    {
        "boomerang"
    }

    /// The one store that is published, the durable one.
    pub fn create_store_manager(
        &self,
        uri_setting: Option<String>,
        data_dir: Option<String>,
        use_docker: bool,
    ) -> (manager: BoomerangStoreManager)
        ensures
            manager.uri@ == store_uri(optional_text(uri_setting)),
            manager.container is None,
            manager.use_docker == use_docker,
            manager.data_dir == data_dir,
            manager.memory_limit_mb is None,
            manager.docker_platform is None,
            manager.store_name@ == "boomerang"@,
            manager.durability@ == "Fsync"@,
    {
        BoomerangStoreManager::fsync(uri_setting, data_dir, use_docker)
    }
}

} // verus!
